//! The link-rate handshake with the root device: its states and the rules
//! that move it from one to the next.

use vstd::prelude::*;

verus! {

/// The two rates of a transport that can change its rate: the one it opens
/// at, and the one the proxy should bring the link to.
#[derive(Clone, Copy, Debug, PartialEq, Eq)]
pub struct RateInfo {
    pub default_bps: u32,
    pub target_bps: u32,
}

/// States of the rate handshake.
#[derive(Clone, Copy, Debug, PartialEq, Eq)]
pub enum RateChange {
    /// The transport has one rate, or is already at its target.
    DoNothing,
    /// Waiting for the root device to show that it is alive.
    WaitingForSession,
    /// About to ask the device which rate near the target it can run at.
    QueryDeviceRate,
    /// Asked; waiting for the device's answer.
    WaitingDeviceRate,
    /// The device agreed; about to tell it to switch.
    SetDeviceRate,
    /// Told the device to switch; waiting for its acknowledgement.
    WaitingNewRate,
    /// Both ends run at the target rate.
    RateChanged,
    /// The handshake failed; the link stays at its default rate.
    GaveUp,
}

/// The state in which a freshly opened transport starts.
pub open spec fn initial_state(info: Option<RateInfo>) -> RateChange {
    match info {
        Some(rates) => if rates.target_bps != rates.default_bps {
            RateChange::WaitingForSession
        } else {
            RateChange::DoNothing
        },
        None => RateChange::DoNothing,
    }
}

/// Whether the device's offer `reported` is close enough to `target`: it is
/// not zero, and it is off by at most 1.5 % of itself.
pub open spec fn rate_acceptable(target: u32, reported: u32) -> bool {
    let off = if target >= reported {
        target - reported
    } else {
        reported - target
    };
    reported != 0 && 200 * off <= 3 * reported
}

/// The state after the root device announced session `session`, when the
/// last session seen was `last_session`.
pub open spec fn after_root_session(state: RateChange, last_session: u32, session: u32) -> RateChange {
    if state is WaitingForSession {
        RateChange::QueryDeviceRate
    } else if session != last_session && state is GaveUp {
        RateChange::QueryDeviceRate
    } else {
        state
    }
}

impl RateChange {
    pub open spec fn is_static(self) -> bool {
        self is DoNothing
    }

    pub open spec fn is_negotiating(self) -> bool {
        !(self is DoNothing) && !(self is GaveUp)
    }

    pub fn initial(info: Option<RateInfo>) -> (s: RateChange)
        ensures
            s == initial_state(info),
    {
        match info {
            Some(rates) => if rates.target_bps != rates.default_bps {
                RateChange::WaitingForSession
            } else {
                RateChange::DoNothing
            },
            None => RateChange::DoNothing,
        }
    }

    /// Whether no handshake was ever needed.
    pub fn has_static_rate(&self) -> (b: bool)
        ensures
            b == self.is_static(),
    {
        match self {
            RateChange::DoNothing => true,
            _ => false,
        }
    }

    /// Whether the handshake is under way and needs upkeep.
    pub fn needs_autonegotiation(&self) -> (b: bool)
        ensures
            b == self.is_negotiating(),
    {
        match self {
            RateChange::DoNothing | RateChange::GaveUp => false,
            _ => true,
        }
    }

    /// The state after a session heartbeat of the root device.
    pub fn on_root_session(self, last_session: u32, session: u32) -> (s: RateChange)
        ensures
            s == after_root_session(self, last_session, session),
    {
        match self {
            RateChange::WaitingForSession => RateChange::QueryDeviceRate,
            RateChange::GaveUp => if session != last_session {
                RateChange::QueryDeviceRate
            } else {
                RateChange::GaveUp
            },
            other => other,
        }
    }
}

/// Decides whether the rate `reported` by the device is close enough to `target`.
pub fn rate_compatible(target: u32, reported: u32) -> (b: bool)
    ensures
        b == rate_acceptable(target, reported),
{
    if reported == 0 {
        return false;
    }
    let off: u64 = if target >= reported {
        (target - reported) as u64
    } else {
        (reported - target) as u64
    };
    200 * off <= 3 * (reported as u64)
}

/// A device that offers the target itself is always accepted.
pub proof fn lemma_exact_rate_is_acceptable(target: u32)
    requires
        target != 0,
    ensures
        rate_acceptable(target, target),
{
}

/// Past session numbers matter only to a handshake that gave up: in every
/// other state the next state is the same whatever session was seen last.
pub proof fn lemma_session_change_restarts_only_from_gave_up(
    state: RateChange,
    last_session: u32,
    session: u32,
)
    ensures
        !(state is GaveUp) ==> after_root_session(state, last_session, session)
            == after_root_session(state, session, session),
        state is GaveUp && session != last_session ==> after_root_session(
            state,
            last_session,
            session,
        ) is QueryDeviceRate,
        state is GaveUp && session == last_session ==> after_root_session(
            state,
            last_session,
            session,
        ) is GaveUp,
{
}

} // verus!
