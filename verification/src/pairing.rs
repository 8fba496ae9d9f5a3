//! The synchronous-pair-over-asynchronous-reply flow, as an explicit state
//! machine.
//!
//! The bus service does not answer a "Pair" call synchronously when a
//! secret exchange is needed: challenges arrive as callbacks, and the
//! final verdict arrives later as a reply correlated to the call's message
//! serial. The caller drives the machine: it installs the agent's
//! dispatch-table entry, advertises the agent, sends the call, then pumps
//! inbound messages through [`PairingFlow::on_bus_message`] until the
//! correlated reply resolves the wait, and finally tears everything down.
//! The machine decides; the caller performs the transport work.

use vstd::prelude::*;
use vstd::string::*;
use crate::text::str_eq;

verus! {

/// The body of a bus method reply: success, or an error under its bus
/// error name.
pub enum BusReplyBody {
    Success,
    Failure(String),
}

/// Whether a reply body means the device is paired: success does, and so
/// does the error naming an already existing pairing (an idempotent retry
/// of a completed pairing).
pub open spec fn reply_success(body: BusReplyBody) -> bool {
    match body {
        BusReplyBody::Success => true,
        BusReplyBody::Failure(name) => name@ == "org.bluez.Error.AlreadyExists"@,
    }
}

/// Whether a reply to a "Connect" call means the device is connected:
/// success does, and so does the error naming an already connected device
/// (the idempotent condition, normalized to success).
pub open spec fn connect_reply_success(body: BusReplyBody) -> bool {
    match body {
        BusReplyBody::Success => true,
        BusReplyBody::Failure(name) => name@ == "org.bluez.Error.AlreadyConnected"@,
    }
}

/// Decides a "Connect" reply: the normalization a backend applies before
/// it reports the outcome of a connect attempt.
pub fn connect_succeeded(body: &BusReplyBody) -> (ok: bool)
    ensures
        ok == connect_reply_success(*body),
{
    match body {
        BusReplyBody::Success => true,
        BusReplyBody::Failure(name) => str_eq(
            name.as_str(),
            "org.bluez.Error.AlreadyConnected",
        ),
    }
}

/// Whether an inbound message's reply serial correlates with the recorded
/// "Pair" call: only a reply to the most recently sent request resolves
/// the wait, and nothing resolves it before the request was sent.
pub open spec fn reply_resolves(expected: Option<u32>, reply_serial: Option<u32>) -> bool {
    expected is Some && reply_serial == expected
}

/// The single pending-reply slot: the correlation key of the outstanding
/// "Pair" call, the answer-pending flag the pump loop spins on, and the
/// result cell.
pub struct PairWaiter {
    /// Serial of the sent "Pair" call, once known.
    pub expected_serial: Option<u32>,
    /// Cleared by the one correlated reply.
    pub pending: bool,
    /// Whether the pairing succeeded; meaningful once `pending` is
    /// cleared.
    pub result: bool,
}

impl PairWaiter {
    /// A fresh slot: no correlation key yet, the answer pending.
    pub fn new() -> (w: PairWaiter)
        ensures
            w.expected_serial is None,
            w.pending,
            !w.result,
    {
        PairWaiter { expected_serial: None, pending: true, result: false }
    }

    /// Records the serial of the just-sent "Pair" call as the correlation
    /// key.
    pub fn record_sent(&mut self, serial: Option<u32>)
        ensures
            *final(self) == (PairWaiter { expected_serial: serial, ..*old(self) }),
    {
        self.expected_serial = serial;
    }

    /// Handles one inbound message. An uncorrelated message changes
    /// nothing and asks the pump to keep receiving; the one correlated
    /// reply stores the verdict, clears the pending flag, and asks the
    /// pump to deregister the matcher.
    pub fn on_message(&mut self, reply_serial: Option<u32>, body: &BusReplyBody) -> (keep: bool)
        ensures
            !reply_resolves(old(self).expected_serial, reply_serial) ==> keep && *final(self)
                == *old(self),
            reply_resolves(old(self).expected_serial, reply_serial) ==> !keep && *final(self) == (
            PairWaiter {
                pending: false,
                result: reply_success(*body),
                ..*old(self)
            }),
    {
        let matched = match self.expected_serial {
            Some(e) => match reply_serial {
                Some(r) => r == e,
                None => false,
            },
            None => false,
        };
        if !matched {
            return true;
        }
        self.result = match body {
            BusReplyBody::Success => true,
            BusReplyBody::Failure(name) => str_eq(
                name.as_str(),
                "org.bluez.Error.AlreadyExists",
            ),
        };
        self.pending = false;
        false
    }

    /// Whether the answer is still pending.
    pub fn is_pending(&self) -> (b: bool)
        ensures
            b == self.pending,
    {
        self.pending
    }

    /// The stored verdict.
    pub fn succeeded(&self) -> (b: bool)
        ensures
            b == self.result,
    {
        self.result
    }
}

/// The phases of one pairing attempt.
#[derive(Clone, Copy, Debug, PartialEq, Eq, Structural)]
pub enum PairPhase {
    /// No agent registered, nothing sent.
    Idle,
    /// The agent's dispatch-table entry is installed but the agent is not
    /// yet advertised to the bus service.
    EntryInstalled,
    /// The agent is installed and advertised, scoped to one device path.
    AgentRegistered,
    /// The "Pair" call is sent; its serial is the correlation key.
    PairRequested,
    /// The correlated reply arrived; the verdict is stored.
    Resolved,
    /// Agent entry removed, advertisement withdrawn (best effort).
    TornDown,
}

/// One pairing attempt: the phase, what bus-wide dispatch state the
/// attempt holds, and the pending-reply slot.
pub struct PairingFlow {
    pub phase: PairPhase,
    /// A dispatch-table entry for the agent exists on the connection.
    pub agent_installed: bool,
    /// The bus service was told of the agent.
    pub advertised: bool,
    pub waiter: PairWaiter,
}

impl PairingFlow {
    /// The machine invariant. In particular, in the terminal phases no
    /// dispatch-table entry is left dangling: a pairing attempt never
    /// leaks its agent registration across devices.
    pub open spec fn wf(self) -> bool {
        match self.phase {
            PairPhase::Idle => !self.agent_installed && !self.advertised && self.waiter.pending,
            PairPhase::EntryInstalled => self.agent_installed && !self.advertised
                && self.waiter.pending,
            PairPhase::AgentRegistered => self.agent_installed && self.advertised
                && self.waiter.pending,
            PairPhase::PairRequested => self.agent_installed && self.advertised
                && self.waiter.pending,
            PairPhase::Resolved => !self.waiter.pending,
            PairPhase::TornDown => !self.agent_installed && !self.advertised,
        }
    }

    /// A fresh attempt: idle, holding nothing.
    pub fn new() -> (f: PairingFlow)
        ensures
            f.wf(),
            f.phase == PairPhase::Idle,
            !f.agent_installed,
            !f.advertised,
            f.waiter.pending,
            !f.waiter.result,
            f.waiter.expected_serial is None,
    {
        PairingFlow {
            phase: PairPhase::Idle,
            agent_installed: false,
            advertised: false,
            waiter: PairWaiter::new(),
        }
    }

    /// The agent's entry has been installed into the connection's
    /// dispatch table.
    pub fn install_agent_entry(&mut self)
        requires
            old(self).wf(),
            old(self).phase == PairPhase::Idle,
        ensures
            final(self).wf(),
            final(self).phase == PairPhase::EntryInstalled,
            final(self).agent_installed,
            !final(self).advertised,
            final(self).waiter == old(self).waiter,
    {
        self.phase = PairPhase::EntryInstalled;
        self.agent_installed = true;
    }

    /// The bus service accepted or rejected the agent advertisement.
    /// Acceptance enters the registered phase; rejection tears the
    /// dispatch-table entry down again before the attempt returns, so no
    /// dangling entry survives a failed advertisement. The returned flag
    /// tells the caller to remove the entry it installed.
    pub fn advertise_result(&mut self, ok: bool) -> (remove_entry: bool)
        requires
            old(self).wf(),
            old(self).phase == PairPhase::EntryInstalled,
        ensures
            final(self).wf(),
            ok ==> final(self).phase == PairPhase::AgentRegistered && final(self).agent_installed
                && final(self).advertised && !remove_entry,
            !ok ==> final(self).phase == PairPhase::TornDown && !final(self).agent_installed
                && !final(self).advertised && remove_entry,
            final(self).waiter == old(self).waiter,
    {
        if ok {
            self.phase = PairPhase::AgentRegistered;
            self.advertised = true;
            false
        } else {
            self.phase = PairPhase::TornDown;
            self.agent_installed = false;
            true
        }
    }

    /// The "Pair" call went out; its serial becomes the correlation key.
    pub fn pair_sent(&mut self, serial: Option<u32>)
        requires
            old(self).wf(),
            old(self).phase == PairPhase::AgentRegistered,
        ensures
            final(self).wf(),
            final(self).phase == PairPhase::PairRequested,
            final(self).agent_installed == old(self).agent_installed,
            final(self).advertised == old(self).advertised,
            final(self).waiter == (PairWaiter { expected_serial: serial, ..old(self).waiter }),
    {
        self.phase = PairPhase::PairRequested;
        self.waiter.record_sent(serial);
    }

    /// Handles one message pumped from the bus while the reply is
    /// awaited. Anything but the correlated reply leaves the attempt as
    /// it was and keeps the matcher receiving; the correlated reply
    /// resolves the attempt with its verdict.
    pub fn on_bus_message(&mut self, reply_serial: Option<u32>, body: &BusReplyBody) -> (keep:
        bool)
        requires
            old(self).wf(),
            old(self).phase == PairPhase::PairRequested,
        ensures
            final(self).wf(),
            !reply_resolves(old(self).waiter.expected_serial, reply_serial) ==> keep
                && *final(self) == *old(self),
            reply_resolves(old(self).waiter.expected_serial, reply_serial) ==> {
                &&& !keep
                &&& final(self).phase == PairPhase::Resolved
                &&& !final(self).waiter.pending
                &&& final(self).waiter.result == reply_success(*body)
                &&& final(self).agent_installed == old(self).agent_installed
                &&& final(self).advertised == old(self).advertised
            },
    {
        let keep = self.waiter.on_message(reply_serial, body);
        if !keep {
            self.phase = PairPhase::Resolved;
        }
        keep
    }

    /// Whether the pump loop must keep processing messages.
    pub fn awaiting_reply(&self) -> (b: bool)
        ensures
            b == self.waiter.pending,
    {
        self.waiter.is_pending()
    }

    /// Ends the attempt: the agent registration is withdrawn whatever
    /// phase the attempt reached, so the dispatch table holds no entry of
    /// this attempt afterwards. The returned flag tells the caller to
    /// remove the entry it installed; withdrawal of the advertisement is
    /// best effort.
    pub fn teardown(&mut self) -> (remove_entry: bool)
        requires
            old(self).wf(),
        ensures
            final(self).wf(),
            final(self).phase == PairPhase::TornDown,
            !final(self).agent_installed,
            !final(self).advertised,
            final(self).waiter == old(self).waiter,
            remove_entry == old(self).agent_installed,
    {
        let remove_entry = self.agent_installed;
        self.phase = PairPhase::TornDown;
        self.agent_installed = false;
        self.advertised = false;
        remove_entry
    }

    /// Whether the pairing succeeded; false when no reply ever arrived.
    pub fn outcome(&self) -> (ok: bool)
        ensures
            ok == self.waiter.result,
    {
        self.waiter.succeeded()
    }
}

} // verus!
