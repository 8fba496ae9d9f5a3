//! The pairing agent's decision logic: challenge callbacks arrive from the
//! bus dispatch loop with a device path and, for interactive challenges,
//! lines read from the terminal; every decision is made here, while the
//! callers do the reading and answer the bus.

use vstd::prelude::*;
use vstd::string::*;
use crate::console::emit_line;
use crate::text::{all_digits, dec_str, dec_value, parse_decimal_bounded, str_eq, u32_to_dec_pad6,
    zero_padded};

verus! {

/// Whether a challenge may be answered at all.
pub enum ChallengeGate {
    /// The challenge names another device: refuse it, ask nothing.
    Rejected,
    /// The challenge is for the bound device: go on to the prompt.
    Prompt,
}

/// The decision on one line of PIN input.
pub enum PinReply {
    /// Empty input: the distinguished cancellation outcome.
    Canceled,
    /// Input out of bounds: ask again.
    Reprompt,
    /// The PIN to hand back.
    Pin(String),
}

/// The decision on one line of passkey input.
pub enum PasskeyReply {
    /// Empty input: the distinguished cancellation outcome.
    Canceled,
    /// Not a number below one million: ask again.
    Reprompt,
    /// The passkey to hand back.
    Passkey(u32),
}

/// The decision on one confirmation keystroke.
pub enum ConfirmReply {
    /// `y`: the passkeys match.
    Accepted,
    /// `n`: the distinguished rejection outcome.
    Rejected,
    /// Anything else: ask again.
    Reprompt,
}

/// The agent bridge, bound to the one device path whose pairing attempt it
/// answers for. A challenge naming any other path is refused, never
/// answered: the binding is a security decision, not a convenience.
pub struct AgentBridge {
    /// The bus object path of the device being paired.
    pub device_path: String,
    /// The device's display name, as shown in prompts.
    pub device_name: String,
}

impl AgentBridge {
    /// Binds a new agent to one device path.
    pub fn new(device_path: String, device_name: String) -> (b: AgentBridge)
        ensures
            b.device_path == device_path,
            b.device_name == device_name,
    {
        AgentBridge { device_path, device_name }
    }

    /// Whether a challenge for `path` concerns the bound device.
    pub fn answers_for(&self, path: &str) -> (b: bool)
        ensures
            b == (path@ == self.device_path@),
    {
        str_eq(path, self.device_path.as_str())
    }

    /// Gates one challenge callback: a challenge for any path other than
    /// the bound one is rejected, and no prompt is shown for it.
    pub fn challenge_gate(&self, path: &str) -> (g: ChallengeGate)
        ensures
            g is Rejected <==> path@ != self.device_path@,
    {
        if self.answers_for(path) {
            ChallengeGate::Prompt
        } else {
            ChallengeGate::Rejected
        }
    }

    /// The prompt asking for the PIN shown on the device.
    pub fn pin_prompt(&self) -> (m: String)
        ensures
            m@ == "Please enter the pin code displayed on "@ + self.device_name@
                + ". (1-16 symbols, empty input to cancel)"@,
    {
        let mut m = String::from_str("Please enter the pin code displayed on ");
        m.append(self.device_name.as_str());
        m.append(". (1-16 symbols, empty input to cancel)");
        m
    }

    /// The prompt asking for the passkey shown on the device.
    pub fn passkey_prompt(&self) -> (m: String)
        ensures
            m@ == "Please enter the passkey displayed on "@ + self.device_name@
                + ". (6 digits, empty input to cancel)"@,
    {
        let mut m = String::from_str("Please enter the passkey displayed on ");
        m.append(self.device_name.as_str());
        m.append(". (6 digits, empty input to cancel)");
        m
    }

    /// The prompt asking whether the passkey matches the one on the
    /// device.
    pub fn confirm_prompt(&self, passkey: u32) -> (m: String)
        ensures
            m@ == "Does "@ + zero_padded(dec_str(passkey as int), 6)
                + " match the pincode on "@ + self.device_name@ + "? [y/n]"@,
    {
        let mut m = String::from_str("Does ");
        m.append(u32_to_dec_pad6(passkey).as_str());
        m.append(" match the pincode on ");
        m.append(self.device_name.as_str());
        m.append("? [y/n]");
        m
    }

    /// Shows an informational PIN to the user; never blocks, and succeeds
    /// exactly for the bound device path. The shown line is returned and
    /// pinned down: the PIN as given, named for the bound device; a
    /// mismatched path shows nothing.
    pub fn display_pin_code(&self, path: &str, pincode: &str) -> (shown: Option<String>)
        ensures
            shown is Some <==> path@ == self.device_path@,
            shown is Some ==> shown->0@ == "The pincode for "@ + self.device_name@ + " is "@
                + pincode@ + "."@,
    {
        if !self.answers_for(path) {
            return None;
        }
        let mut m = String::from_str("The pincode for ");
        m.append(self.device_name.as_str());
        m.append(" is ");
        m.append(pincode);
        m.append(".");
        emit_line(m.as_str());
        Some(m)
    }

    /// Shows an informational passkey to the user; never blocks, and
    /// succeeds exactly for the bound device path. The shown line is
    /// returned and pinned down: the passkey zero-padded to six digits,
    /// named for the bound device; a mismatched path shows nothing.
    pub fn display_passkey(&self, path: &str, passkey: u32) -> (shown: Option<String>)
        ensures
            shown is Some <==> path@ == self.device_path@,
            shown is Some ==> shown->0@ == "The pincode for "@ + self.device_name@ + " is "@
                + zero_padded(dec_str(passkey as int), 6) + "."@,
    {
        if !self.answers_for(path) {
            return None;
        }
        let mut m = String::from_str("The pincode for ");
        m.append(self.device_name.as_str());
        m.append(" is ");
        m.append(u32_to_dec_pad6(passkey).as_str());
        m.append(".");
        emit_line(m.as_str());
        Some(m)
    }

    /// Decides an authorization request: approved without a prompt, but
    /// only for the bound device path.
    pub fn authorize(&self, path: &str) -> (ok: bool)
        ensures
            ok <==> path@ == self.device_path@,
    {
        self.answers_for(path)
    }
}

/// Decides one line of PIN input: empty input is the cancellation outcome
/// (never a retry), more than 16 characters asks again, anything else is
/// the PIN.
pub fn pin_reply(line: &str) -> (r: PinReply)
    ensures
        line@.len() == 0 ==> r is Canceled,
        line@.len() > 16 ==> r is Reprompt,
        0 < line@.len() <= 16 ==> (r matches PinReply::Pin(p) && p@ == line@),
{
    let n = line.unicode_len();
    if n == 0 {
        PinReply::Canceled
    } else if n > 16 {
        PinReply::Reprompt
    } else {
        PinReply::Pin(String::from_str(line))
    }
}

/// Decides one line of passkey input: empty input is the cancellation
/// outcome (never a retry); a number below one million is the passkey;
/// anything else asks again.
pub fn passkey_reply(line: &str) -> (r: PasskeyReply)
    ensures
        line@.len() == 0 ==> r is Canceled,
        line@.len() > 0 && all_digits(line@) && dec_value(line@) < 1000000 ==> (r
            matches PasskeyReply::Passkey(v) && v as int == dec_value(line@)),
        line@.len() > 0 && !(all_digits(line@) && dec_value(line@) < 1000000) ==> r is Reprompt,
{
    if line.is_empty() {
        return PasskeyReply::Canceled;
    }
    match parse_decimal_bounded(line, 1000000) {
        Some(v) => PasskeyReply::Passkey(v),
        None => PasskeyReply::Reprompt,
    }
}

/// Decides one confirmation keystroke: `y` accepts, `n` is the
/// distinguished rejection outcome (no retry), anything else asks again.
pub fn confirm_reply(answer: char) -> (r: ConfirmReply)
    ensures
        r is Accepted <==> answer == 'y',
        r is Rejected <==> answer == 'n',
{
    if answer == 'y' {
        ConfirmReply::Accepted
    } else if answer == 'n' {
        ConfirmReply::Rejected
    } else {
        ConfirmReply::Reprompt
    }
}

} // verus!
