//! The proxy's state as plain values, the steps that change it, and
//! what holds of those steps.
//!
//! Every step of the engine is stated here as a function, or where
//! something outside the engine has a say as a relation, on `ProxyView`.

use crate::client::{outgoing, ClientView};
use crate::device::{after_receipt, DeviceView, ProxyDevice};
use crate::event::{EffectView, Event};
use crate::proto::{rpc_error_packet, Packet, PacketView, PayloadView, RecvError, RpcErrorCode};
use crate::rate::{rate_acceptable, RateChange, RateInfo};
use crate::remap::{expired, is_expiry_order, EntryView};
use crate::util::rpc_request_packet;
use crate::wire::{u32_from_le, u32_to_le};
use vstd::prelude::*;

verus! {

/// The procedure by which the proxy asks the device which rate near the
/// target it can run at.
pub const RATE_QUERY_METHOD: &'static str = "dev.port.rate.near";

/// The procedure by which the proxy tells the device to switch its rate.
pub const RATE_SET_METHOD: &'static str = "dev.port.rate";

/// How long the proxy waits for the answer to a request of its own.
pub const INTERNAL_RPC_TIMEOUT: u64 = 1_000_000_000;

/// How long the proxy sleeps at most while the device is missing.
pub const RECONNECT_RETRY_WAIT: u64 = 1_000_000_000;

/// How long the proxy sleeps at most while the rate handshake is under way.
pub const AUTONEG_WAIT: u64 = 200_000_000;

/// How long a link that runs at its target rate may stay silent.
pub const NO_DATA_LIMIT: u64 = 1_000_000_000;

/// How long the proxy may sleep with nothing in flight.
pub const IDLE_WAIT: u64 = 60_000_000_000;

/// Added to the time until the next deadline, so that the sweep that
/// follows the sleep finds the deadline passed.
pub const TIMEOUT_SLACK: u64 = 1_000_000;

/// What the proxy is to do after a round of housekeeping.
#[derive(Clone, Copy, Debug, PartialEq, Eq)]
pub enum Iteration {
    /// Stop: the device is missing and the time to reconnect has run out.
    Stop,
    /// Set the transport to `set_rate`, if that is a rate, and report the
    /// outcome with `rate_set_result`; then wait for a queue, for `timeout` at most.
    Wait { timeout: u64, set_rate: Option<u32> },
}

/// What the proxy is to do after it took what a ready queue held.
#[derive(Clone, Copy, Debug, PartialEq, Eq)]
pub enum Served {
    /// Go on with the next round.
    Continue,
    /// Set the transport to this rate, report the outcome with
    /// `rate_set_result`, and take the rest from the device's queue.
    SetRate(u32),
    /// Stop: no client will ever arrive, or the transport failed for good.
    Stop,
}

/// What the proxy found when it took what waited on the device's receive queue.
#[derive(Clone, Copy, Debug, PartialEq, Eq)]
pub enum DeviceDrain {
    /// Nothing more to do for now.
    Idle,
    /// The transport is to switch to this rate now. The caller switches
    /// it, reports the outcome with `rate_set_result`, and drains again.
    SetRate(u32),
    /// The transport closed: the device is gone and may be reopened.
    Disconnected,
    /// The transport failed for good: the proxy is to stop.
    Fatal,
}

/// `now` moved on by `span`; an instant past the end of the clock's range
/// counts as the end of the range.
pub open spec fn later(now: u64, span: u64) -> u64 {
    if now + span > u64::MAX {
        u64::MAX
    } else {
        (now + span) as u64
    }
}

/// The wire id that is tried after `id`: the next one, and 0 after the last.
pub open spec fn next_wire_id(id: u16) -> u16 {
    if id == u16::MAX {
        0
    } else {
        (id + 1) as u16
    }
}

/// When a request of `client` that is forwarded at `now` is given up: after
/// the client's own timeout, or after the internal one for a request that
/// no registered client stands behind.
pub open spec fn request_deadline(clients: Map<u64, ClientView>, client: u64, now: u64) -> u64 {
    later(
        now,
        if clients.contains_key(client) {
            clients[client].rpc_timeout
        } else {
            INTERNAL_RPC_TIMEOUT
        },
    )
}

/// How long the proxy may sleep at `now` with `rpc` in flight: until the
/// earliest deadline and a little longer, or the idle wait with nothing in flight.
pub open spec fn wait_until_next(rpc: Map<u16, EntryView>, now: u64) -> u64 {
    if rpc.len() == 0 {
        IDLE_WAIT
    } else {
        let d = choose|d: u64| is_earliest(rpc, d);
        let left = if d > now {
            (d - now) as u64
        } else {
            0
        };
        later(left, TIMEOUT_SLACK)
    }
}

/// The packet that a forwarding step hands back for the client, by its view.
pub open spec fn returned(r: Result<(), Packet>) -> Option<PacketView> {
    match r {
        Ok(_) => None,
        Err(e) => Some(e@),
    }
}

/// `order` names every registered client once.
pub open spec fn is_roll_call(clients: Map<u64, ClientView>, order: Seq<u64>) -> bool {
    &&& order.no_duplicates()
    &&& forall|id: u64| order.contains(id) <==> clients.contains_key(id)
}

/// The rate that the device reports in `reply`: its first four bytes, least
/// significant first. A reply too short to hold a rate counts as rate 0,
/// which a device sends for a rate that it cannot run at.
pub open spec fn reported_rate(reply: Seq<u8>) -> u32 {
    if reply.len() >= 4 {
        u32_from_le(reply)
    } else {
        0
    }
}

/// `d` is the earliest deadline in `rpc`.
pub open spec fn is_earliest(rpc: Map<u16, EntryView>, d: u64) -> bool {
    &&& exists|w: u16| rpc.contains_key(w) && rpc[w].deadline == d
    &&& forall|v: u16| #[trigger] rpc.contains_key(v) ==> d <= rpc[v].deadline
}

/// The record of a freshly opened device, by its view.
pub open spec fn device_view(opened: Option<ProxyDevice>) -> Option<DeviceView> {
    match opened {
        Some(d) => Some(d@),
        None => None,
    }
}

/// What draining the device's receive queue comes to after a packet that
/// may have asked for a rate to be set.
pub open spec fn drain_after(rate: Option<u32>) -> DeviceDrain {
    match rate {
        Some(rate) => DeviceDrain::SetRate(rate),
        None => DeviceDrain::Idle,
    }
}

/// The state of the proxy, without its queues.
pub struct ProxyView {
    pub reconnect_timeout: Option<u64>,
    pub device: Option<DeviceView>,
    /// Until when a lost device may still be reopened.
    pub device_timeout: u64,
    pub next_client_id: u64,
    pub clients: Map<u64, ClientView>,
    /// Clients whose inbound queue was found closed, to be dropped.
    pub doomed: Set<u64>,
    pub next_rpc_id: u16,
    /// The remap table: wire ids in flight.
    pub rpc: Map<u16, EntryView>,
    /// What was decided and not sent yet, in order.
    pub pending: Seq<EffectView>,
    /// Every packet that was handed to the device's queue, in order,
    /// whether the queue took it or not.
    pub offered: Seq<PacketView>,
}

impl ProxyView {
    pub open spec fn wf(self) -> bool {
        &&& self.next_client_id >= 1
        &&& self.clients.dom().finite()
        &&& forall|id: u64| #[trigger] self.clients.contains_key(id) ==> 1 <= id < self.next_client_id
        &&& self.rpc.dom().finite()
        &&& self.device matches Some(d) ==> d.wf()
    }

    /// The state after `event` was queued for the status sink.
    pub open spec fn emit(self, event: Event) -> ProxyView {
        ProxyView { pending: self.pending.push(EffectView::Emit(event)), ..self }
    }

    /// The state after `pkt`, a packet with an absolute route, was queued
    /// for `client`: nothing is queued for a client that is not registered,
    /// or whose scope or policy does not admit the packet.
    pub open spec fn deliver(self, client: u64, pkt: PacketView) -> ProxyView {
        if self.clients.contains_key(client) {
            match outgoing(self.clients[client], pkt) {
                Some(p) => ProxyView {
                    pending: self.pending.push(EffectView::Deliver(client, p)),
                    ..self
                },
                None => self,
            }
        } else {
            self
        }
    }

    /// The state after the answer to `wire_id` arrived.
    pub open spec fn restore(self, wire_id: u16) -> ProxyView {
        if self.rpc.contains_key(wire_id) {
            let e = self.rpc[wire_id];
            ProxyView { rpc: self.rpc.remove(wire_id), ..self }.emit(
                Event::RpcRestore(wire_id, (e.client, e.id)),
            )
        } else {
            self
        }
    }

    /// The state after a request found its wire id still in flight.
    pub open spec fn collide(self) -> ProxyView {
        ProxyView { next_rpc_id: next_wire_id(self.next_rpc_id), ..self }
    }

    /// The state after request `id` of `client` was given the next wire id.
    pub open spec fn remap(self, id: u16, client: u64) -> ProxyView {
        ProxyView { next_rpc_id: next_wire_id(self.next_rpc_id), ..self }.emit(
            Event::RpcRemap((client, id), self.next_rpc_id),
        )
    }

    /// What is remembered of request `id` of `client` for `route`, forwarded at `now`.
    pub open spec fn entry_for(self, id: u16, client: u64, route: Seq<u8>, now: u64) -> EntryView {
        EntryView { id, client, route, deadline: request_deadline(self.clients, client, now) }
    }

    /// The state after request `id` of `client` for `route` went to the
    /// device at `now` under the next wire id.
    pub open spec fn forward(self, id: u16, client: u64, route: Seq<u8>, now: u64) -> ProxyView {
        ProxyView {
            rpc: self.rpc.insert(self.next_rpc_id, self.entry_for(id, client, route, now)),
            ..self.remap(id, client)
        }
    }

    /// The state after `pkt` was handed to the device's queue; without a
    /// device there is no queue to hand it to.
    pub open spec fn offer(self, pkt: PacketView) -> ProxyView {
        if self.device is Some {
            ProxyView { offered: self.offered.push(pkt), ..self }
        } else {
            self
        }
    }

    /// Whether forwarding `pkt` for `client` at `now` may end in the state
    /// `after`, with `back` to go back to the client.
    ///
    /// A packet that is no request is handed to the device as it is. A
    /// request whose wire id is still in flight is answered with
    /// `OutOfMemory`, and nothing is handed to the device. Any other
    /// request is handed to the device under its wire id; it is either in
    /// flight afterwards, which takes a device, or answered with `Undefined`.
    pub open spec fn forwards(
        self,
        pkt: PacketView,
        client: u64,
        now: u64,
        after: ProxyView,
        back: Option<PacketView>,
    ) -> bool {
        match pkt.payload {
            PayloadView::RpcRequest { id, .. } => if self.rpc.contains_key(self.next_rpc_id) {
                &&& after == self.collide()
                &&& back == Some(rpc_error_packet(id, RpcErrorCode::OutOfMemory, pkt.routing))
            } else {
                let out = PacketView { payload: pkt.payload.with_id(self.next_rpc_id), ..pkt };
                ||| {
                    &&& self.device is Some
                    &&& after == self.forward(id, client, pkt.routing, now).offer(out)
                    &&& back is None
                }
                ||| {
                    &&& after == self.remap(id, client).offer(out)
                    &&& back == Some(rpc_error_packet(id, RpcErrorCode::Undefined, pkt.routing))
                }
            },
            _ => after == self.offer(pkt) && back is None,
        }
    }

    /// The state after the expiry of `wire_id`, which stood for `e`, was
    /// reported and the client that waited was told `error`.
    pub open spec fn notify_timeout(self, wire_id: u16, e: EntryView, error: RpcErrorCode) -> ProxyView {
        self.emit(Event::RpcTimeout(wire_id)).deliver(
            e.client,
            rpc_error_packet(e.id, error, e.route),
        )
    }

    /// The state after the expiry of each wire id of `order`, in order, was
    /// reported and answered; `entries` holds what each stood for.
    pub open spec fn notify_timeouts(
        self,
        entries: Map<u16, EntryView>,
        order: Seq<u16>,
        error: RpcErrorCode,
    ) -> ProxyView
        decreases order.len(),
    {
        if order.len() == 0 {
            self
        } else {
            self.notify_timeouts(entries, order.drop_last(), error).notify_timeout(
                order.last(),
                entries[order.last()],
                error,
            )
        }
    }

    /// The state after every request that expires by `until` was given up
    /// with `error`, in the order `order`.
    pub open spec fn expire(self, until: u64, order: Seq<u16>, error: RpcErrorCode) -> ProxyView {
        ProxyView {
            rpc: self.rpc.remove_keys(expired(self.rpc, until)),
            ..self.notify_timeouts(self.rpc, order, error)
        }
    }

    /// The state with the rate handshake moved to `state`; nothing changes without a device.
    pub open spec fn with_rate_state(self, state: RateChange) -> ProxyView {
        match self.device {
            Some(d) => ProxyView { device: Some(DeviceView { state, ..d }), ..self },
            None => self,
        }
    }

    /// The two rates of the transport, where a device is open and has two.
    pub open spec fn rates(self) -> Option<RateInfo> {
        match self.device {
            Some(d) => d.rate_info,
            None => None,
        }
    }

    /// The state of the rate handshake, where a device is open and its transport has two rates.
    pub open spec fn rate_state(self) -> Option<RateChange> {
        match self.device {
            Some(d) => if d.rate_info is Some {
                Some(d.state)
            } else {
                None
            },
            None => None,
        }
    }

    /// The state after the device answered a request of the proxy's own with `reply`.
    ///
    /// While the proxy waits for the device's rate, the reply is the rate
    /// the device offers: one close enough to the target moves the
    /// handshake on, any other ends it. While it waits for the
    /// acknowledgement of the switch, the reply means that the transport
    /// is now to be switched, which is reported. In any other state the
    /// reply means nothing.
    pub open spec fn rate_reply(self, reply: Seq<u8>) -> ProxyView {
        match (self.rate_state(), self.rates()) {
            (Some(RateChange::WaitingDeviceRate), Some(rates)) => {
                let value = reported_rate(reply);
                if rate_acceptable(rates.target_bps, value) {
                    self.emit(Event::AutoRateCompatible(value)).with_rate_state(
                        RateChange::SetDeviceRate,
                    )
                } else {
                    self.emit(Event::AutoRateIncompatible(value)).emit(
                        Event::AutoRateGaveUp,
                    ).with_rate_state(RateChange::GaveUp)
                }
            },
            (Some(RateChange::WaitingNewRate), Some(rates)) => self.emit(
                Event::SetRate(rates.target_bps),
            ),
            _ => self,
        }
    }

    /// The rate that the transport is to be switched to now: the target,
    /// once the device has acknowledged the switch.
    pub open spec fn rate_to_set(self) -> Option<u32> {
        match (self.rate_state(), self.rates()) {
            (Some(RateChange::WaitingNewRate), Some(rates)) => Some(rates.target_bps),
            _ => None,
        }
    }

    /// The state after the transport was told to switch to the target rate
    /// and did (`ok`) or did not.
    pub open spec fn rate_set(self, ok: bool) -> ProxyView {
        match self.rate_state() {
            Some(RateChange::WaitingNewRate) => if ok {
                self.with_rate_state(RateChange::RateChanged)
            } else {
                self.emit(Event::AutoRateGaveUp).with_rate_state(RateChange::GaveUp)
            },
            _ => self,
        }
    }

    /// The state after the device answered a request of the proxy's own
    /// with the error `code`: the handshake is over.
    pub open spec fn rate_error(self, code: RpcErrorCode) -> ProxyView {
        let s = self.emit(Event::AutoRateRpcError(code));
        match s.device {
            Some(d) => (if d.rate_info is Some {
                s.with_rate_state(RateChange::GaveUp)
            } else {
                s
            }).emit(Event::AutoRateGaveUp),
            None => s,
        }
    }

    /// The state after `client` was registered under the next client id.
    pub open spec fn admit_client(self, client: ClientView) -> ProxyView {
        ProxyView {
            clients: self.clients.insert(self.next_client_id, client),
            next_client_id: (self.next_client_id + 1) as u64,
            ..self.emit(Event::NewClient(self.next_client_id))
        }
    }

    /// The state after `client` was found gone: it is reported, and marked to be dropped.
    pub open spec fn doom(self, client: u64) -> ProxyView {
        ProxyView { doomed: self.doomed.insert(client), ..self.emit(Event::ClientTerminated(client)) }
    }

    /// The state after every marked client was dropped.
    pub open spec fn bury(self) -> ProxyView {
        ProxyView {
            clients: self.clients.remove_keys(self.doomed),
            doomed: Set::empty(),
            ..self
        }
    }

    /// The state after the device's answer `pkt` to `wire_id` arrived.
    ///
    /// An answer to a wire id that is not in flight is discarded. Otherwise
    /// the wire id is free again, and the answer goes, under the original
    /// id, to the client that asked and to nobody else. An answer to a
    /// request of the proxy's own moves the rate handshake; an answer for a
    /// client that has left is discarded.
    pub open spec fn answer(self, wire_id: u16, pkt: PacketView) -> ProxyView {
        if !self.rpc.contains_key(wire_id) {
            self
        } else {
            let e = self.rpc[wire_id];
            let s = self.restore(wire_id);
            if s.clients.contains_key(e.client) {
                s.deliver(e.client, PacketView { payload: pkt.payload.with_id(e.id), ..pkt })
            } else if e.client == 0 {
                match pkt.payload {
                    PayloadView::RpcReply { reply, .. } => s.rate_reply(reply),
                    PayloadView::RpcError { error, .. } => s.rate_error(error),
                    _ => s,
                }
            } else {
                s
            }
        }
    }

    /// The rate that the transport is to be switched to once the device's
    /// answer `pkt` to `wire_id` is booked, if any.
    pub open spec fn switch_after(self, wire_id: u16, pkt: PacketView) -> Option<u32> {
        if self.rpc.contains_key(wire_id) && self.rpc[wire_id].client == 0
            && !self.clients.contains_key(0) && pkt.payload is RpcReply {
            self.rate_to_set()
        } else {
            None
        }
    }

    /// The state after `pkt` was queued for each client of `order`, in order.
    pub open spec fn fan_out(self, order: Seq<u64>, pkt: PacketView) -> ProxyView
        decreases order.len(),
    {
        if order.len() == 0 {
            self
        } else {
            self.fan_out(order.drop_last(), pkt).deliver(order.last(), pkt)
        }
    }

    /// The request by which the proxy calls `method` with `rate`: a request
    /// to the root device, under the next wire id.
    pub open spec fn own_request(self, method: Seq<char>, rate: u32) -> PacketView {
        rpc_request_packet(method, u32_to_le(rate), self.next_rpc_id, Seq::<u8>::empty())
    }

    /// The state after `request`, a request of the proxy's own, went to
    /// the device at `now`: it was handed to the device's queue and is in
    /// flight, for the internal timeout.
    pub open spec fn own_request_sent(self, now: u64, request: PacketView) -> ProxyView {
        self.forward(0, 0, Seq::<u8>::empty(), now).offer(request)
    }

    /// Whether `after` is a state in which `request`, a request of the
    /// proxy's own, may have failed to go out: its wire id was in flight,
    /// or it was handed to the device's queue, which did not take it.
    pub open spec fn own_request_failed(self, after: ProxyView, request: PacketView) -> bool {
        if self.rpc.contains_key(self.next_rpc_id) {
            after == self.collide()
        } else {
            after == self.remap(0, 0).offer(request)
        }
    }

    /// Whether `after` is a state that upkeep of the rate handshake at `now` may lead to.
    ///
    /// Ready to query: the device is asked which rate near the target it
    /// can run at. Ready to switch: the device is told to switch, once
    /// nothing else is in flight. At the target rate: a link that has been
    /// silent for too long is taken back to its default rate.
    pub open spec fn upkeep(self, now: u64, after: ProxyView) -> bool {
        match (self.rate_state(), self.rates()) {
            (Some(RateChange::QueryDeviceRate), Some(rates)) => {
                let request = self.own_request(RATE_QUERY_METHOD@, rates.target_bps);
                ||| !self.rpc.contains_key(self.next_rpc_id) && self.device is Some && after
                    == self.own_request_sent(now, request).emit(
                    Event::AutoRateQueried(rates.target_bps),
                ).with_rate_state(RateChange::WaitingDeviceRate)
                ||| self.own_request_failed(after, request)
            },
            (Some(RateChange::SetDeviceRate), Some(rates)) => if self.rpc.len() == 0 {
                let request = self.own_request(RATE_SET_METHOD@, rates.target_bps);
                ||| after == self.own_request_sent(now, request).emit(
                    Event::AutoRateSet(rates.target_bps),
                ).with_rate_state(RateChange::WaitingNewRate)
                ||| self.own_request_failed(after, request)
            } else {
                after == self.emit(Event::AutoRateWait)
            },
            (Some(RateChange::RateChanged), Some(rates)) => if self.silent_too_long(now) {
                after == self.emit(Event::NoData).with_rate_state(RateChange::GaveUp).emit(
                    Event::SetRate(rates.default_bps),
                )
            } else {
                after == self
            },
            _ => after == self,
        }
    }

    /// Whether the link has carried nothing for longer than the limit.
    pub open spec fn silent_too_long(self, now: u64) -> bool {
        self.device matches Some(d) && now - d.last_rx > NO_DATA_LIMIT
    }

    /// The rate that upkeep of the rate handshake at `now` asks the
    /// transport to go back to, if any: its default rate, when the link has
    /// been silent for too long at the target rate.
    pub open spec fn fallback_rate(self, now: u64) -> Option<u32> {
        match (self.rate_state(), self.rates()) {
            (Some(RateChange::RateChanged), Some(rates)) => if self.silent_too_long(now) {
                Some(rates.default_bps)
            } else {
                None
            },
            _ => None,
        }
    }

    /// The state after the device was lost at `now`: the loss is reported,
    /// and the device may be reopened until the reconnect timeout has passed.
    pub open spec fn lose_device(self, now: u64) -> ProxyView {
        ProxyView {
            device: None,
            device_timeout: later(
                now,
                match self.reconnect_timeout {
                    Some(t) => t,
                    None => 0,
                },
            ),
            ..self
        }.emit(Event::SensorDisconnected)
    }

    /// The state after the proxy made sure at `now` that a device is open,
    /// where opening the transport gave `opened`.
    ///
    /// With a device open nothing happens. Without one, every request in
    /// flight is given up with `Undefined`, in the order `order`; then the
    /// newly opened device is taken and reported, or, where there is none
    /// and the time to reconnect has run out, the failure is reported.
    pub open spec fn ensure_device(self, opened: Option<DeviceView>, now: u64, order: Seq<u16>) -> ProxyView {
        if self.device is Some {
            self
        } else {
            let s = self.expire(u64::MAX, order, RpcErrorCode::Undefined);
            match opened {
                Some(d) => ProxyView { device: Some(d), ..s }.emit(Event::SensorReconnected),
                None => if now > self.device_timeout {
                    s.emit(Event::FailedToReconnect)
                } else {
                    s
                },
            }
        }
    }

    /// How long the proxy may sleep after it made sure that a device is
    /// open, where `wait` is how long it might have slept before: as long,
    /// or at most the retry wait while the device is missing, or not at
    /// all, because the proxy is to stop.
    pub open spec fn wait_for_device(self, opened: Option<DeviceView>, now: u64, wait: u64) -> Option<u64> {
        if self.device is Some || opened is Some {
            Some(wait)
        } else if now > self.device_timeout {
            None
        } else {
            Some(if wait < RECONNECT_RETRY_WAIT {
                wait
            } else {
                RECONNECT_RETRY_WAIT
            })
        }
    }

    /// The state after a receive error of the transport was reported: as
    /// a protocol error, or else as a fatal one.
    pub open spec fn book_error(self, e: RecvError) -> ProxyView {
        match e {
            RecvError::Protocol(p) => self.emit(Event::ProtocolError(p)),
            other => self.emit(Event::FatalError(other)),
        }
    }

    /// The state after `client` was settled with what forwarding handed back for it.
    pub open spec fn give_back(self, client: u64, back: Option<PacketView>) -> ProxyView {
        match back {
            Some(b) => self.deliver(client, b),
            None => self,
        }
    }

    /// Whether `after` holds the requests of `self` untouched, and beside
    /// them only requests of `client`.
    pub open spec fn grown_for(self, client: u64, after: ProxyView) -> bool {
        &&& forall|w: u16| #[trigger]
            self.rpc.contains_key(w) ==> after.rpc.contains_key(w) && after.rpc[w] == self.rpc[w]
        &&& forall|w: u16| #[trigger]
            after.rpc.contains_key(w) && !self.rpc.contains_key(w) ==> after.rpc[w].client
                == client
    }

    /// The state with nothing left to send.
    pub open spec fn flushed(self) -> ProxyView {
        ProxyView { pending: Seq::empty(), ..self }
    }

    /// Whether `after`, `rate` and `wait_out` are what upkeep of the rate
    /// handshake at `now` may come to, where the proxy might have slept
    /// `wait_in`: nothing changes unless the handshake is under way, and
    /// while it is, the proxy sleeps no longer than the handshake allows.
    pub open spec fn negotiates(
        self,
        now: u64,
        after: ProxyView,
        rate: Option<u32>,
        wait_in: u64,
        wait_out: u64,
    ) -> bool {
        if self.device matches Some(d) && d.state.is_negotiating() {
            &&& self.upkeep(now, after)
            &&& rate == self.fallback_rate(now)
            &&& wait_out == if wait_in < AUTONEG_WAIT {
                wait_in
            } else {
                AUTONEG_WAIT
            }
        } else {
            after == self && rate is None && wait_out == wait_in
        }
    }

    /// One round of housekeeping at `now`, with its choices laid open:
    /// the requests in `due`, which have expired, are given up with
    /// `Timeout`; the proxy makes sure that a device is open, giving up the
    /// requests in `lost` where it is not; then, unless the proxy is to
    /// stop, the rate handshake is kept going, which leads to `kept`.
    /// Everything decided is sent, and last the clients that left are dropped.
    pub open spec fn round_with(
        self,
        opened: Option<DeviceView>,
        now: u64,
        after: ProxyView,
        plan: Iteration,
        due: Seq<u16>,
        lost: Seq<u16>,
        kept: ProxyView,
    ) -> bool {
        let swept = self.expire(now, due, RpcErrorCode::Timeout);
        let sure = swept.ensure_device(opened, now, lost);
        &&& is_expiry_order(self.rpc, now, due)
        &&& swept.device is None ==> is_expiry_order(swept.rpc, u64::MAX, lost)
        &&& match swept.wait_for_device(opened, now, wait_until_next(swept.rpc, now)) {
            None => plan is Stop && after == sure.flushed(),
            Some(wait) => {
                &&& plan matches Iteration::Wait { timeout, set_rate }
                &&& sure.negotiates(now, kept, set_rate, wait, timeout)
                &&& after == kept.flushed().bury()
            },
        }
    }

    /// Whether one round of housekeeping at `now` may lead to `after` and `plan`.
    pub open spec fn round(
        self,
        opened: Option<DeviceView>,
        now: u64,
        after: ProxyView,
        plan: Iteration,
    ) -> bool {
        exists|due: Seq<u16>, lost: Seq<u16>, kept: ProxyView|
            self.round_with(opened, now, after, plan, due, lost, kept)
    }
}

impl ProxyView {
    /// The state after `client` asked to be registered: it is registered,
    /// unless every client id has been given out.
    pub open spec fn take_client(self, client: ClientView) -> ProxyView {
        if self.next_client_id < u64::MAX {
            self.admit_client(client)
        } else {
            self
        }
    }

    /// The state after the clients of `arrivals` asked to be registered, in order.
    pub open spec fn take_clients(self, arrivals: Seq<ClientView>) -> ProxyView
        decreases arrivals.len(),
    {
        if arrivals.len() == 0 {
            self
        } else {
            self.take_clients(arrivals.drop_last()).take_client(arrivals.last())
        }
    }

    /// Whether `after` is a state that booking `pkt`, which `client` sent,
    /// may lead to at `now`: the packet is forwarded, and what forwarding
    /// hands back is queued for the client.
    pub open spec fn client_packet(self, client: u64, pkt: PacketView, now: u64, after: ProxyView) -> bool {
        exists|mid: ProxyView, back: Option<PacketView>|
            self.forwards(pkt, client, now, mid, back) && after == mid.give_back(client, back)
    }

    /// Whether `after` is a state that booking the packets of `pkts`, which
    /// `client` sent, one after the other may lead to at `now`.
    pub open spec fn client_packets(
        self,
        client: u64,
        pkts: Seq<PacketView>,
        now: u64,
        after: ProxyView,
    ) -> bool
        decreases pkts.len(),
    {
        if pkts.len() == 0 {
            after == self
        } else {
            exists|mid: ProxyView|
                #![trigger mid.client_packet(client, pkts.last(), now, after)]
                self.client_packets(client, pkts.drop_last(), now, mid) && mid.client_packet(
                    client,
                    pkts.last(),
                    now,
                    after,
                )
        }
    }

    /// Whether taking what `client` sent may lead to `after` at `now`, with
    /// the client found gone or not: some packets, each with a route inside
    /// the client's scope, were booked one after the other, and then, if
    /// the client was found gone, that was reported and the client marked.
    /// Nothing is taken for a client that is not registered.
    pub open spec fn client_drained(self, client: u64, now: u64, after: ProxyView, gone: bool) -> bool {
        exists|pkts: Seq<PacketView>, mid: ProxyView|
            #![trigger self.client_packets(client, pkts, now, mid)]
            {
                &&& self.client_packets(client, pkts, now, mid)
                &&& pkts.len() <= DRAIN_LIMIT
                &&& pkts.len() > 0 || gone ==> self.clients.contains_key(client)
                &&& forall|i: int|
                    0 <= i < pkts.len() ==> self.clients[client].scope.is_prefix_of(
                        (#[trigger] pkts[i]).routing,
                    )
                &&& after == if gone {
                    mid.doom(client)
                } else {
                    mid
                }
            }
    }

    /// The state after `res` came out of the device's receive queue at
    /// `now`, and before it is looked at: the device has booked it.
    pub open spec fn receive(self, res: Result<PacketView, RecvError>, now: u64) -> ProxyView {
        match self.device {
            Some(d) => ProxyView { device: Some(after_receipt(d, res, now)), ..self },
            None => self,
        }
    }

    /// Whether `after` and `outcome` are what booking `res`, one thing
    /// that the device's receive queue held, may come to.
    ///
    /// A reply or an error is the answer to a request. Any other packet
    /// is offered to every client, in some order. A receive error is
    /// reported, and is fatal unless it is a protocol error.
    pub open spec fn device_receipt(
        self,
        res: Result<PacketView, RecvError>,
        after: ProxyView,
        outcome: DeviceDrain,
    ) -> bool {
        match res {
            Ok(pkt) => match pkt.payload {
                PayloadView::RpcReply { id, .. } => after == self.answer(id, pkt) && outcome
                    == drain_after(self.switch_after(id, pkt)),
                PayloadView::RpcError { id, .. } => after == self.answer(id, pkt) && outcome
                    == drain_after(self.switch_after(id, pkt)),
                _ => outcome is Idle && exists|order: Seq<u64>|
                    is_roll_call(self.clients, order) && after == self.fan_out(order, pkt),
            },
            Err(e) => after == self.book_error(e) && outcome == if e is Protocol {
                DeviceDrain::Idle
            } else {
                DeviceDrain::Fatal
            },
        }
    }

    /// Whether `after` and `outcome` are what taking `res` from the
    /// device's receive queue at `now` may come to.
    pub open spec fn device_step(
        self,
        res: Result<PacketView, RecvError>,
        now: u64,
        after: ProxyView,
        outcome: DeviceDrain,
    ) -> bool {
        self.receive(res, now).device_receipt(res, after, outcome)
    }

    /// Whether `after` is a state that taking the things of `receipts`
    /// from the device's receive queue one after the other may lead to at
    /// `now`, none of them asking for the caller.
    pub open spec fn device_steps(
        self,
        receipts: Seq<Result<PacketView, RecvError>>,
        now: u64,
        after: ProxyView,
    ) -> bool
        decreases receipts.len(),
    {
        if receipts.len() == 0 {
            after == self
        } else {
            exists|mid: ProxyView|
                #![trigger mid.device_step(receipts.last(), now, after, DeviceDrain::Idle)]
                self.device_steps(receipts.drop_last(), now, mid) && mid.device_step(
                    receipts.last(),
                    now,
                    after,
                    DeviceDrain::Idle,
                )
        }
    }

    /// Whether taking what the device's receive queue holds may lead to
    /// `after` and `outcome` at `now`: some things were taken and booked one
    /// after the other; then the queue was empty or the limit reached, or
    /// the queue was found closed and the device lost, or one more thing
    /// was taken whose booking asks for the caller. Without a device
    /// nothing is taken.
    pub open spec fn device_drained(self, now: u64, after: ProxyView, outcome: DeviceDrain) -> bool {
        exists|receipts: Seq<Result<PacketView, RecvError>>, mid: ProxyView|
            #![trigger self.device_steps(receipts, now, mid)]
            {
                &&& self.device_steps(receipts, now, mid)
                &&& receipts.len() <= DRAIN_LIMIT
                &&& self.device is None ==> receipts.len() == 0 && outcome is Idle
                &&& match outcome {
                    DeviceDrain::Idle => after == mid,
                    DeviceDrain::Disconnected => mid.device is Some && after == mid.lose_device(
                        now,
                    ),
                    _ => mid.device is Some && exists|last: Result<PacketView, RecvError>|
                        mid.device_step(last, now, after, outcome),
                }
            }
    }

    /// Whether taking the clients that wait to be registered may lead to
    /// `after`, with the queue found open or not: some clients were
    /// registered in the order in which they arrived, and then, if the
    /// queue was found closed, that was reported.
    pub open spec fn clients_accepted(self, after: ProxyView, open: bool) -> bool {
        exists|arrivals: Seq<ClientView>|
            arrivals.len() <= DRAIN_LIMIT && after == if open {
                self.take_clients(arrivals)
            } else {
                self.take_clients(arrivals).emit(Event::Exiting)
            }
    }
}

/// How many packets one call takes from one queue at most, so that one
/// busy queue cannot keep the proxy from the others.
pub const DRAIN_LIMIT: usize = 4096;

/// Offering a packet to clients changes nothing but what is waiting to be sent.
pub(crate) proof fn lemma_fan_out_frame(s: ProxyView, order: Seq<u64>, pkt: PacketView)
    ensures
        s.fan_out(order, pkt) == (ProxyView { pending: s.fan_out(order, pkt).pending, ..s }),
    decreases order.len(),
{
    if order.len() > 0 {
        lemma_fan_out_frame(s, order.drop_last(), pkt);
    }
}

/// What booking one thing from the device's receive queue leaves alone:
/// the clients, the counters, and every request that it did not answer.
pub(crate) proof fn lemma_device_step_frame(
    before: ProxyView,
    res: Result<PacketView, RecvError>,
    after: ProxyView,
)
    requires
        exists|outcome: DeviceDrain| before.device_receipt(res, after, outcome),
    ensures
        after.clients == before.clients,
        after.next_client_id == before.next_client_id,
        after.doomed == before.doomed,
        after.next_rpc_id == before.next_rpc_id,
        after.device is Some <==> before.device is Some,
        after.rates() == before.rates(),
        forall|w: u16| #[trigger]
            after.rpc.contains_key(w) ==> before.rpc.contains_key(w) && after.rpc[w]
                == before.rpc[w],
{
    match res {
        Ok(pkt) => match pkt.payload {
            PayloadView::RpcReply { id, .. } => {},
            PayloadView::RpcError { id, .. } => {},
            _ => {
                let order = choose|order: Seq<u64>|
                    is_roll_call(before.clients, order) && after == before.fan_out(order, pkt);
                lemma_fan_out_frame(before, order, pkt);
            },
        },
        Err(e) => {},
    }
}

/// Giving up requests changes nothing but the remap table and what is
/// waiting to be sent.
pub proof fn lemma_notify_frame(
    s: ProxyView,
    entries: Map<u16, EntryView>,
    order: Seq<u16>,
    error: RpcErrorCode,
)
    ensures
        s.notify_timeouts(entries, order, error) == (ProxyView {
            pending: s.notify_timeouts(entries, order, error).pending,
            ..s
        }),
    decreases order.len(),
{
    if order.len() > 0 {
        lemma_notify_frame(s, entries, order.drop_last(), error);
    }
}

/// Forwarding never touches a request that is in flight, and a request
/// that finds its wire id in flight is refused with `OutOfMemory`: no
/// wire id stands for two requests at once.
pub proof fn lemma_forward_keeps_requests(
    s: ProxyView,
    pkt: PacketView,
    client: u64,
    now: u64,
    after: ProxyView,
    back: Option<PacketView>,
)
    requires
        s.forwards(pkt, client, now, after, back),
    ensures
        forall|w: u16| #[trigger]
            s.rpc.contains_key(w) ==> after.rpc.contains_key(w) && after.rpc[w] == s.rpc[w],
        forall|w: u16| #[trigger]
            after.rpc.contains_key(w) && !s.rpc.contains_key(w) ==> w == s.next_rpc_id
                && after.rpc[w].client == client,
        pkt.payload is RpcRequest && s.rpc.contains_key(s.next_rpc_id) ==> after.rpc == s.rpc
            && back == Some(
            rpc_error_packet(pkt.payload->RpcRequest_id, RpcErrorCode::OutOfMemory, pkt.routing),
        ),
{
}

/// A request goes out under a wire id, the device answers under that wire
/// id, and the client that asked, and nobody else, is sent the answer
/// under the id that it chose. After that the wire id is free again.
pub proof fn lemma_answer_reaches_the_asker(
    s: ProxyView,
    id: u16,
    client: u64,
    route: Seq<u8>,
    now: u64,
    answer: PacketView,
)
    requires
        s.clients.contains_key(client),
        !s.rpc.contains_key(s.next_rpc_id),
        answer.payload is RpcReply || answer.payload is RpcError,
    ensures
        ({
            let w = s.next_rpc_id;
            let sent = s.forward(id, client, route, now);
            let done = sent.answer(w, answer);
            let restored = sent.pending.push(EffectView::Emit(Event::RpcRestore(w, (client, id))));
            let mine = PacketView { payload: answer.payload.with_id(id), ..answer };
            &&& sent.rpc.contains_key(w) && sent.rpc[w].id == id && sent.rpc[w].client == client
            &&& done.rpc == s.rpc
            &&& done.clients == s.clients && done.device == s.device
            &&& done.pending == match outgoing(s.clients[client], mine) {
                Some(p) => restored.push(EffectView::Deliver(client, p)),
                None => restored,
            }
            &&& outgoing(s.clients[client], mine) matches Some(p) ==> p.payload
                == answer.payload.with_id(id)
        }),
{
    let w = s.next_rpc_id;
    let sent = s.forward(id, client, route, now);
    assert(sent.rpc.remove(w) =~= s.rpc);
}

/// An answer is passed on at most once: after the answer to a wire id, a
/// second answer to it changes nothing. An answer to a wire id that is
/// not in flight changes nothing either.
pub proof fn lemma_answer_only_once(s: ProxyView, wire_id: u16, first: PacketView, second: PacketView)
    ensures
        s.answer(wire_id, first).answer(wire_id, second) == s.answer(wire_id, first),
        !s.rpc.contains_key(wire_id) ==> s.answer(wire_id, first) == s,
{
}

/// Whatever an answer from the device leads to, it is sent to one client
/// at most, the one whose request stood behind the wire id, and only
/// while that request is in flight.
pub proof fn lemma_answer_goes_to_the_asker_only(s: ProxyView, wire_id: u16, pkt: PacketView, i: int)
    requires
        s.wf(),
        s.pending.len() <= i < s.answer(wire_id, pkt).pending.len(),
        s.answer(wire_id, pkt).pending[i] is Deliver,
    ensures
        s.rpc.contains_key(wire_id),
        s.answer(wire_id, pkt).pending[i] matches EffectView::Deliver(client, p) && client
            == s.rpc[wire_id].client && outgoing(
            s.clients[client],
            PacketView { payload: pkt.payload.with_id(s.rpc[wire_id].id), ..pkt },
        ) == Some(p),
{
}

/// A client is never sent a packet whose absolute route is outside its scope.
pub proof fn lemma_deliver_respects_scope(s: ProxyView, client: u64, pkt: PacketView)
    ensures
        s.clients.contains_key(client) && !s.clients[client].scope.is_prefix_of(pkt.routing)
            ==> s.deliver(client, pkt) == s,
        !s.clients.contains_key(client) ==> s.deliver(client, pkt) == s,
        s.deliver(client, pkt) != s ==> s.deliver(client, pkt).pending == s.pending.push(
            EffectView::Deliver(client, outgoing(s.clients[client], pkt)->Some_0),
        ),
{
}

/// What offering a packet to the clients of `order` queues: packets for
/// clients of `order` only, each the packet as that client's scope and
/// policy let it through.
pub proof fn lemma_fan_out_respects_scope(s: ProxyView, order: Seq<u64>, pkt: PacketView, i: int)
    requires
        s.pending.len() <= i < s.fan_out(order, pkt).pending.len(),
    ensures
        s.fan_out(order, pkt).pending[i] matches EffectView::Deliver(client, p) && order.contains(
            client,
        ) && s.clients.contains_key(client) && outgoing(s.clients[client], pkt) == Some(p)
            && s.clients[client].scope.is_prefix_of(pkt.routing),
    decreases order.len(),
{
    lemma_fan_out_grows(s, order, pkt);
    if order.len() > 0 {
        let before = s.fan_out(order.drop_last(), pkt);
        lemma_fan_out_frame(s, order.drop_last(), pkt);
        lemma_fan_out_grows(s, order.drop_last(), pkt);
        if i < before.pending.len() {
            lemma_fan_out_respects_scope(s, order.drop_last(), pkt, i);
            let c = s.fan_out(order.drop_last(), pkt).pending[i]->Deliver_0;
            let k = choose|k: int| 0 <= k < order.drop_last().len() && order.drop_last()[k] == c;
            assert(order[k] == c);
        } else {
            assert(order[order.len() - 1] == order.last());
        }
    }
}

/// Offering a packet to clients only adds to what is waiting to be sent.
pub(crate) proof fn lemma_fan_out_grows(s: ProxyView, order: Seq<u64>, pkt: PacketView)
    ensures
        s.pending.len() <= s.fan_out(order, pkt).pending.len(),
        forall|i: int|
            0 <= i < s.pending.len() ==> s.fan_out(order, pkt).pending[i] == s.pending[i],
    decreases order.len(),
{
    if order.len() > 0 {
        lemma_fan_out_grows(s, order.drop_last(), pkt);
    }
}

/// Whether `e` reports that the answer to `wire_id` came back.
pub open spec fn is_restore_of(e: EffectView, wire_id: u16) -> bool {
    e matches EffectView::Emit(Event::RpcRestore(w, _)) && w == wire_id
}

/// Whether `history` holds a report that request `id` of `client` went out
/// under `wire_id`, with no report after it that the answer came back.
pub open spec fn open_remap(history: Seq<EffectView>, wire_id: u16, client: u64, id: u16) -> bool {
    exists|j: int|
        0 <= j < history.len() && #[trigger] history[j] == EffectView::Emit(
            Event::RpcRemap((client, id), wire_id),
        ) && forall|k: int| j < k < history.len() ==> !#[trigger] is_restore_of(history[k], wire_id)
}

/// Every request in flight is accounted for in `history`, the effects
/// decided so far: it was reported as remapped for its client, under its
/// own id and its wire id, and not as answered since.
pub open spec fn accounted(rpc: Map<u16, EntryView>, history: Seq<EffectView>) -> bool {
    forall|w: u16| #[trigger] rpc.contains_key(w) ==> open_remap(history, w, rpc[w].client, rpc[w].id)
}

/// What the step from `before` to `after` added to the effects waiting to be sent.
pub open spec fn fresh(before: ProxyView, after: ProxyView) -> Seq<EffectView> {
    after.pending.skip(before.pending.len() as int)
}

/// Effects that do not report the answer to a request in flight leave
/// every request accounted for.
pub proof fn lemma_accounted_grows(
    rpc: Map<u16, EntryView>,
    history: Seq<EffectView>,
    more: Seq<EffectView>,
)
    requires
        accounted(rpc, history),
        forall|k: int, w: u16|
            0 <= k < more.len() && rpc.contains_key(w) ==> !#[trigger] is_restore_of(more[k], w),
    ensures
        accounted(rpc, history + more),
{
    let longer = history + more;
    assert forall|w: u16| #[trigger] rpc.contains_key(w) implies open_remap(
        longer,
        w,
        rpc[w].client,
        rpc[w].id,
    ) by {
        let j = choose|j: int|
            0 <= j < history.len() && #[trigger] history[j] == EffectView::Emit(
                Event::RpcRemap((rpc[w].client, rpc[w].id), w),
            ) && forall|k: int|
                j < k < history.len() ==> !#[trigger] is_restore_of(history[k], w);
        assert(longer[j] == history[j]);
        assert forall|k: int| j < k < longer.len() implies !#[trigger] is_restore_of(longer[k],
            w,
        ) by {
            if k < history.len() {
                assert(longer[k] == history[k]);
            } else {
                assert(longer[k] == more[k - history.len()]);
            }
        }
    }
}

/// Giving up requests reports no answer: it only adds to what is waiting
/// to be sent, and adds no report of a restore.
pub(crate) proof fn lemma_notify_adds_no_restore(
    s: ProxyView,
    entries: Map<u16, EntryView>,
    order: Seq<u16>,
    error: RpcErrorCode,
)
    ensures
        s.pending.len() <= s.notify_timeouts(entries, order, error).pending.len(),
        s.pending.is_prefix_of(s.notify_timeouts(entries, order, error).pending),
        forall|k: int, w: u16|
            0 <= k < fresh(s, s.notify_timeouts(entries, order, error)).len() ==> !#[trigger] is_restore_of(fresh(s, s.notify_timeouts(entries, order, error))[k],
                w,
            ),
    decreases order.len(),
{
    if order.len() > 0 {
        lemma_notify_adds_no_restore(s, entries, order.drop_last(), error);
        let mid = s.notify_timeouts(entries, order.drop_last(), error);
        let after = s.notify_timeouts(entries, order, error);
        assert(mid.pending.is_prefix_of(after.pending));
        assert forall|k: int, w: u16| 0 <= k < fresh(s, after).len() implies !#[trigger] is_restore_of(fresh(s, after)[k],
            w,
        ) by {
            if k < fresh(s, mid).len() {
                assert(fresh(s, after)[k] == fresh(s, mid)[k]);
            }
        }
    }
}

/// A request that goes to the device is accounted for from then on, and
/// so is every request that was in flight before.
pub proof fn lemma_forward_is_accounted(
    s: ProxyView,
    history: Seq<EffectView>,
    id: u16,
    client: u64,
    route: Seq<u8>,
    now: u64,
)
    requires
        accounted(s.rpc, history),
        !s.rpc.contains_key(s.next_rpc_id),
    ensures
        accounted(
            s.forward(id, client, route, now).rpc,
            history + fresh(s, s.forward(id, client, route, now)),
        ),
{
    let w = s.next_rpc_id;
    let after = s.forward(id, client, route, now);
    let more = fresh(s, after);
    let longer = history + more;
    assert(more =~= seq![EffectView::Emit(Event::RpcRemap((client, id), w))]);
    lemma_accounted_grows(s.rpc, history, more);
    assert forall|v: u16| #[trigger] after.rpc.contains_key(v) implies open_remap(
        longer,
        v,
        after.rpc[v].client,
        after.rpc[v].id,
    ) by {
        if v == w {
            assert(longer[history.len() as int] == more[0]);
        } else {
            assert(s.rpc.contains_key(v));
        }
    }
}

/// An answer from the device is passed on only for a request that is
/// accounted for: one that was reported as remapped for the very client
/// and id that the answer goes to, and not as answered since. Passing it
/// on is reported as a restore before the answer is queued, which closes
/// the account: the same remap never stands behind a second answer.
/// Every other request in flight stays accounted for.
pub proof fn lemma_answer_is_accounted(
    s: ProxyView,
    history: Seq<EffectView>,
    wire_id: u16,
    pkt: PacketView,
)
    requires
        accounted(s.rpc, history),
    ensures
        accounted(s.answer(wire_id, pkt).rpc, history + fresh(s, s.answer(wire_id, pkt))),
        s.rpc.contains_key(wire_id) ==> open_remap(
            history,
            wire_id,
            s.rpc[wire_id].client,
            s.rpc[wire_id].id,
        ) && fresh(s, s.answer(wire_id, pkt)).len() > 0 && fresh(s, s.answer(wire_id, pkt))[0]
            == EffectView::Emit(
            Event::RpcRestore(wire_id, (s.rpc[wire_id].client, s.rpc[wire_id].id)),
        ),
        s.rpc.contains_key(wire_id) ==> forall|client: u64, id: u16|
            !open_remap(
                history + fresh(s, s.answer(wire_id, pkt)).take(1),
                wire_id,
                client,
                id,
            ),
        !s.rpc.contains_key(wire_id) ==> fresh(s, s.answer(wire_id, pkt)).len() == 0,
{
    let after = s.answer(wire_id, pkt);
    let more = fresh(s, after);
    if s.rpc.contains_key(wire_id) {
        let e = s.rpc[wire_id];
        let restored = s.restore(wire_id);
        assert(restored.pending == s.pending.push(
            EffectView::Emit(Event::RpcRestore(wire_id, (e.client, e.id))),
        ));
        assert(after.pending.len() > s.pending.len());
        assert(more[0] == after.pending[s.pending.len() as int]);
        assert(after.pending[s.pending.len() as int] == restored.pending[s.pending.len() as int]);
        assert forall|k: int, w: u16|
            0 <= k < more.len() && after.rpc.contains_key(w) implies !#[trigger] is_restore_of(more[k],
            w,
        ) by {
            assert(more[k] == after.pending[s.pending.len() + k]);
        }
        assert forall|w: u16| #[trigger] after.rpc.contains_key(w) implies open_remap(
            history,
            w,
            after.rpc[w].client,
            after.rpc[w].id,
        ) by {
            assert(s.rpc.contains_key(w));
        }
        lemma_accounted_grows(after.rpc, history, more);
        let closed = history + more.take(1);
        assert forall|client: u64, id: u16| !open_remap(closed, wire_id, client, id) by {
            if open_remap(closed, wire_id, client, id) {
                let j = choose|j: int|
                    0 <= j < closed.len() && #[trigger] closed[j] == EffectView::Emit(
                        Event::RpcRemap((client, id), wire_id),
                    ) && forall|k: int|
                        j < k < closed.len() ==> !#[trigger] is_restore_of(closed[k], wire_id);
                assert(closed[history.len() as int] == more[0]);
                assert(is_restore_of(closed[history.len() as int], wire_id));
            }
        }
    } else {
        assert(more =~= Seq::<EffectView>::empty());
        assert(history + more =~= history);
    }
}

/// Giving up requests leaves every other request in flight accounted for.
pub proof fn lemma_expire_is_accounted(
    s: ProxyView,
    history: Seq<EffectView>,
    until: u64,
    order: Seq<u16>,
    error: RpcErrorCode,
)
    requires
        accounted(s.rpc, history),
    ensures
        accounted(
            s.expire(until, order, error).rpc,
            history + fresh(s, s.expire(until, order, error)),
        ),
{
    let after = s.expire(until, order, error);
    lemma_notify_adds_no_restore(s, s.rpc, order, error);
    assert(fresh(s, after) == fresh(s, s.notify_timeouts(s.rpc, order, error)));
    assert forall|w: u16| #[trigger] after.rpc.contains_key(w) implies open_remap(
        history,
        w,
        after.rpc[w].client,
        after.rpc[w].id,
    ) by {
        assert(s.rpc.contains_key(w));
    }
    lemma_accounted_grows(after.rpc, history, fresh(s, after));
}

} // verus!
