//! The open transport as the proxy sees it: a queue in each direction, the
//! rates it can run at, and the state of the rate handshake.

use crate::channel::{try_recv, try_send, TryRecvError};
use crate::proto::{HeartbeatPayload, HeartbeatView, Packet, PacketView, Payload, PayloadView};
use crate::proto::{ProtocolError, RecvError};
use crate::rate::{after_root_session, initial_state, RateChange, RateInfo};
use crossbeam::channel::{Receiver, Sender};
use vstd::prelude::*;

verus! {

/// Everything about the device link but its queues.
pub struct DeviceView {
    pub rate_info: Option<RateInfo>,
    pub state: RateChange,
    pub last_rx: u64,
    pub last_session: u32,
}

impl DeviceView {
    /// A handshake is only ever under way on a transport that has two rates.
    pub open spec fn wf(self) -> bool {
        self.state.is_static() || self.rate_info is Some
    }
}

/// One thing taken from the device's receive queue, with packets by their view.
pub open spec fn receipt_view(res: Result<Packet, RecvError>) -> Result<PacketView, RecvError> {
    match res {
        Ok(pkt) => Ok(pkt@),
        Err(e) => Err(e),
    }
}

/// The link after `res` came out of its receive queue at `now`.
///
/// A packet, or text where a packet was expected, shows that the link
/// carries bytes. A session heartbeat of the root device is remembered,
/// and moves the handshake where one is under way or has given up.
pub open spec fn after_receipt(d: DeviceView, res: Result<PacketView, RecvError>, now: u64) -> DeviceView {
    match res {
        Ok(pkt) => match pkt.payload {
            PayloadView::Heartbeat(HeartbeatView::Session(session)) => if pkt.routing.len() == 0 {
                DeviceView {
                    rate_info: d.rate_info,
                    state: after_root_session(d.state, d.last_session, session),
                    last_rx: now,
                    last_session: session,
                }
            } else {
                DeviceView { last_rx: now, ..d }
            },
            _ => DeviceView { last_rx: now, ..d },
        },
        Err(RecvError::Protocol(ProtocolError::Text)) => DeviceView { last_rx: now, ..d },
        Err(_) => d,
    }
}

/// The proxy's record of the open transport.
pub struct ProxyDevice {
    tx: Sender<Packet>,
    rx_channel: Receiver<Result<Packet, RecvError>>,
    rate_info: Option<RateInfo>,
    rate_change_state: RateChange,
    last_rx: u64,
    last_session: u32,
}

impl View for ProxyDevice {
    type V = DeviceView;

    closed spec fn view(&self) -> DeviceView {
        DeviceView {
            rate_info: self.rate_info,
            state: self.rate_change_state,
            last_rx: self.last_rx,
            last_session: self.last_session,
        }
    }
}

impl ProxyDevice {
    /// A record for a transport that was opened at `now`. Packets for the
    /// device go into `tx`; what the transport receives comes out of `rx`.
    /// The handshake starts only where the transport has a target rate
    /// that differs from its default.
    pub fn new(
        tx: Sender<Packet>,
        rx: Receiver<Result<Packet, RecvError>>,
        rate_info: Option<RateInfo>,
        now: u64,
    ) -> (d: ProxyDevice)
        ensures
            d@ == (DeviceView {
                rate_info,
                state: initial_state(rate_info),
                last_rx: now,
                last_session: 0,
            }),
            d@.wf(),
    {
        ProxyDevice {
            tx,
            rx_channel: rx,
            rate_info,
            rate_change_state: RateChange::initial(rate_info),
            last_rx: now,
            last_session: 0,
        }
    }

    pub fn rate_info(&self) -> (r: Option<RateInfo>)
        ensures
            r == self@.rate_info,
    {
        self.rate_info
    }

    pub fn rate_change_state(&self) -> (s: RateChange)
        ensures
            s == self@.state,
    {
        self.rate_change_state
    }

    /// When the link last showed that it carries bytes.
    pub fn last_rx(&self) -> (t: u64)
        ensures
            t == self@.last_rx,
    {
        self.last_rx
    }

    pub fn last_session(&self) -> (s: u32)
        ensures
            s == self@.last_session,
    {
        self.last_session
    }

    /// The queue on which the transport posts what it received: the one
    /// that `try_recv` takes from.
    pub closed spec fn receive_channel(&self) -> Receiver<Result<Packet, RecvError>> {
        self.rx_channel
    }

    /// The device's receive queue, for a selector to wait on.
    pub fn receive_queue(&self) -> (r: &Receiver<Result<Packet, RecvError>>)
        ensures
            *r == self.receive_channel(),
    {
        &self.rx_channel
    }

    /// Moves the handshake to `state`.
    pub(crate) fn set_rate_change_state(&mut self, state: RateChange)
        requires
            state.is_static() || old(self)@.rate_info is Some,
        ensures
            final(self)@ == (DeviceView { state, ..old(self)@ }),
            final(self)@.wf(),
    {
        self.rate_change_state = state;
    }

    pub fn has_static_rate(&self) -> (b: bool)
        ensures
            b == self@.state.is_static(),
    {
        self.rate_change_state.has_static_rate()
    }

    pub fn needs_autonegotiation(&self) -> (b: bool)
        ensures
            b == self@.state.is_negotiating(),
    {
        self.rate_change_state.needs_autonegotiation()
    }

    /// Puts `pkt` on the queue to the transport, without waiting. `false`
    /// when the queue is full or the transport is gone.
    pub fn send(&self, pkt: Packet) -> (sent: bool) {
        match try_send(&self.tx, pkt) {
            Ok(_) => true,
            Err(_) => false,
        }
    }

    /// Books `res`, which came out of the receive queue at `now`.
    pub fn note_received(&mut self, res: &Result<Packet, RecvError>, now: u64)
        requires
            old(self)@.wf(),
        ensures
            final(self)@ == after_receipt(old(self)@, receipt_view(*res), now),
            final(self)@.wf(),
    {
        match res {
            Ok(pkt) => {
                match &pkt.payload {
                    Payload::Heartbeat(HeartbeatPayload::Session(session)) => {
                        if pkt.routing.len() == 0 {
                            self.rate_change_state = self.rate_change_state.on_root_session(
                                self.last_session,
                                *session,
                            );
                            self.last_session = *session;
                        }
                    },
                    _ => {},
                }
                self.last_rx = now;
            },
            Err(RecvError::Protocol(ProtocolError::Text)) => {
                self.last_rx = now;
            },
            Err(_) => {},
        }
    }

    /// Takes the next thing from the receive queue, if anything waits
    /// there, and books it.
    pub fn try_recv(&mut self, now: u64) -> (r: Result<Result<Packet, RecvError>, TryRecvError>)
        requires
            old(self)@.wf(),
        ensures
            final(self)@.wf(),
            match r {
                Ok(res) => final(self)@ == after_receipt(old(self)@, receipt_view(res), now),
                Err(_) => final(self)@ == old(self)@,
            },
    {
        match try_recv(&self.rx_channel) {
            Ok(res) => {
                self.note_received(&res, now);
                Ok(res)
            },
            Err(e) => Err(e),
        }
    }
}

} // verus!
