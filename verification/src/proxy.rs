//! The proxy engine: the state it owns and the steps that change it.
//!
//! The engine decides; it never waits. Each step takes what arrived and the
//! time, changes the state, and queues what is to be sent as a list of
//! effects, which `flush` then hands to the queues in order.

use crate::channel::{select_len, select_new, select_ready_timeout, select_recv, try_recv};
use crate::channel::{try_send, TryRecvError, MAX_SELECT_WAIT};
use crate::client::{ClientView, ProxyClient};
use crate::device::{DeviceView, ProxyDevice};
use crate::event::{effect_views, Effect, EffectView, Event};
use crate::model::{device_view, drain_after, is_earliest, is_roll_call, later, reported_rate};
use crate::model::{lemma_device_step_frame, lemma_notify_frame, request_deadline, returned};
use crate::model::{wait_until_next, DeviceDrain, Iteration, ProxyView, Served};
use crate::model::{AUTONEG_WAIT, IDLE_WAIT, INTERNAL_RPC_TIMEOUT, NO_DATA_LIMIT};
use crate::model::{DRAIN_LIMIT, RATE_QUERY_METHOD, RATE_SET_METHOD, RECONNECT_RETRY_WAIT};
use crate::model::TIMEOUT_SLACK;
use crate::proto::{rpc_error_packet, Packet, PacketView, Payload, PayloadView, RpcErrorCode};
use crate::proto::{RecvError, RpcErrorPayload, RpcReplyPayload};
use crate::rate::{rate_compatible, RateChange, RateInfo};
use crate::remap::{consistent, is_expiry_order, wire_ids, EntryView, RemapTable};
use crate::remap::RpcMapEntry;
use crate::route::DeviceRoute;
use crate::util::PacketBuilder;
use crate::wire::{read_u32, write_u32};
use crossbeam::channel::{Receiver, Sender};
use std::collections::HashMap;
use std::collections::HashSet;
use vstd::prelude::*;
use vstd::std_specs::iter::IteratorSpec;

verus! {

/// `now` moved on by `span`, stopping at the end of the clock's range.
pub fn add_span(now: u64, span: u64) -> (t: u64)
    ensures
        t == later(now, span),
{
    if span > u64::MAX - now {
        u64::MAX
    } else {
        now + span
    }
}

/// Which queue has something waiting.
#[derive(Clone, Copy, Debug, PartialEq, Eq)]
pub enum Ready {
    /// None, for as long as the proxy was willing to wait.
    Timeout,
    /// The inbound queue of this client.
    Client(u64),
    /// The queue on which new clients arrive.
    NewClient,
    /// The device's receive queue.
    Device,
}

/// The queue that a selector names by `index`, where the inbound queues
/// of the clients of `order` were registered first, in order, then the
/// queue of new clients, then the device's receive queue.
pub open spec fn ready_named(order: Seq<u64>, index: Option<usize>) -> Ready {
    match index {
        Some(i) => if i < order.len() {
            Ready::Client(order[i as int])
        } else if i == order.len() {
            Ready::NewClient
        } else {
            Ready::Device
        },
        None => Ready::Timeout,
    }
}

/// How the proxy goes on after it took what the device's receive queue held.
pub open spec fn served_after(outcome: DeviceDrain) -> Served {
    match outcome {
        DeviceDrain::Idle => Served::Continue,
        DeviceDrain::Disconnected => Served::Continue,
        DeviceDrain::SetRate(rate) => Served::SetRate(rate),
        DeviceDrain::Fatal => Served::Stop,
    }
}

/// Whether taking what the queue named by `ready` holds may lead from
/// `before` to `after` at `now`, with `r` to say how to go on.
///
/// With nothing ready nothing happens. A client's packets are booked, and
/// the proxy goes on even where the client was found gone. New clients
/// are registered, and the proxy stops exactly where their queue was found
/// closed. What the device sent is booked, and the proxy stops exactly
/// where a fatal receive error came out.
pub open spec fn serves(before: ProxyView, ready: Ready, now: u64, after: ProxyView, r: Served) -> bool {
    match ready {
        Ready::Timeout => r is Continue && after == before,
        Ready::Client(id) => r is Continue && exists|gone: bool|
            before.client_drained(id, now, after, gone),
        Ready::NewClient => !(r is SetRate) && before.clients_accepted(after, r is Continue),
        Ready::Device => exists|outcome: DeviceDrain|
            before.device_drained(now, after, outcome) && r == served_after(outcome),
    }
}

/// The queue that a selector names by `index`, where `ids` are the
/// clients whose inbound queues were registered first.
pub fn ready_source(ids: &Vec<u64>, index: Option<usize>) -> (r: Ready)
    ensures
        r == ready_named(ids@, index),
{
    match index {
        Some(index) => {
            if index < ids.len() {
                Ready::Client(ids[index])
            } else if index == ids.len() {
                Ready::NewClient
            } else {
                Ready::Device
            }
        },
        None => Ready::Timeout,
    }
}

/// The members of `ids`, each once, in no particular order.
fn set_items(ids: &HashSet<u64>) -> (r: Vec<u64>)
    ensures
        r@.to_set() == ids@,
        r@.no_duplicates(),
{
    let mut out: Vec<u64> = Vec::new();
    proof {
        vstd::std_specs::hash::axiom_spec_hash_keys_iter(ids);
    }
    for k in it: ids.iter()
        invariant
            it.seq() == ids.iter().remaining(),
            out@.len() == it.index(),
            forall|i: int| 0 <= i < out@.len() ==> out@[i] == *it.seq()[i],
    {
        out.push(*k);
    }
    proof {
        let keys = ids.iter().remaining();
        assert(out@ =~= keys.unref());
        assert forall|i: int, j: int|
            0 <= i < out@.len() && 0 <= j < out@.len() && i != j implies out@[i] != out@[j] by {
            assert(keys[i] != keys[j]);
        }
    }
    out
}

/// The rate that the device reports in `reply`; 0 where the reply is too
/// short to hold one.
pub fn parse_rate(reply: &Vec<u8>) -> (value: u32)
    ensures
        value == reported_rate(reply@),
{
    if reply.len() < 4 {
        0
    } else {
        read_u32(reply.as_slice())
    }
}

/// What the proxy makes of a packet that is to go to the device.
#[derive(Debug, PartialEq, Eq)]
pub enum Outbound {
    /// Not a request: it goes to the device as it is.
    Plain(Packet),
    /// A request, rewritten to its wire id; with the wire id, and what to
    /// remember of the request once the device has taken it.
    Remapped(Packet, u16, RpcMapEntry),
    /// A request whose wire id is still in flight; with the error for the client.
    Refused(Packet),
}

/// The proxy: the device link, the clients, the remap table, and what is
/// waiting to be sent.
pub struct Proxy {
    reconnect_timeout: Option<u64>,
    new_client_queue: Receiver<ProxyClient>,
    status_queue: Option<Sender<Event>>,
    device: Option<ProxyDevice>,
    device_timeout: u64,
    /// Id to assign to the next client; 0 stands for the proxy itself.
    next_client_id: u64,
    clients: HashMap<u64, ProxyClient>,
    clients_to_drop: HashSet<u64>,
    next_rpc_id: u16,
    rpc: RemapTable,
    pending: Vec<Effect>,
    offered: Ghost<Seq<PacketView>>,
}

impl View for Proxy {
    type V = ProxyView;

    closed spec fn view(&self) -> ProxyView {
        ProxyView {
            reconnect_timeout: self.reconnect_timeout,
            device: match self.device {
                Some(d) => Some(d@),
                None => None,
            },
            device_timeout: self.device_timeout,
            next_client_id: self.next_client_id,
            clients: self.clients@.map_values(|c: ProxyClient| c@),
            doomed: self.clients_to_drop@,
            next_rpc_id: self.next_rpc_id,
            rpc: self.rpc.entries(),
            pending: effect_views(self.pending@),
            offered: self.offered@,
        }
    }
}

impl Proxy {
    /// The deadline index of the remap table.
    pub closed spec fn deadline_index(&self) -> Map<u64, Set<u16>> {
        self.rpc.index()
    }

    pub open spec fn wf(&self) -> bool {
        &&& self@.wf()
        &&& consistent(self@.rpc, self.deadline_index())
    }

    /// A proxy without device and without clients. New clients arrive on
    /// `new_client_queue`; reports go to `status_queue`, if there is one.
    pub fn new(
        reconnect_timeout: Option<u64>,
        new_client_queue: Receiver<ProxyClient>,
        status_queue: Option<Sender<Event>>,
    ) -> (p: Proxy)
        ensures
            p.wf(),
            p@ == (ProxyView {
                reconnect_timeout,
                device: None,
                device_timeout: 0,
                next_client_id: 1,
                clients: Map::empty(),
                doomed: Set::empty(),
                next_rpc_id: 0,
                rpc: Map::empty(),
                pending: Seq::empty(),
                offered: Seq::empty(),
            }),
    {
        broadcast use vstd::std_specs::hash::group_hash_axioms;

        let p = Proxy {
            reconnect_timeout: reconnect_timeout,
            new_client_queue: new_client_queue,
            status_queue: status_queue,
            device: None,
            device_timeout: 0,
            // Start from client 1, as 0 is reserved for internal RPCs.
            next_client_id: 1,
            clients: HashMap::new(),
            clients_to_drop: HashSet::new(),
            next_rpc_id: 0,
            rpc: RemapTable::new(),
            pending: Vec::new(),
            offered: Ghost(Seq::empty()),
        };
        assert(p@.clients =~= Map::<u64, ClientView>::empty());
        assert(p@.pending =~= Seq::<EffectView>::empty());
        p
    }

    /// Queues `event` for the status sink.
    pub fn send_event(&mut self, event: Event)
        requires
            old(self).wf(),
        ensures
            final(self).wf(),
            final(self)@ == old(self)@.emit(event),
            final(self).deadline_index() == old(self).deadline_index(),
    {
        self.pending.push(Effect::Emit(event));
        assert(self@.pending =~= old(self)@.pending.push(EffectView::Emit(event)));
    }

    /// Queues `pkt`, a packet with an absolute route, for `client`, as far
    /// as the client is registered and its scope and policy admit the packet.
    pub fn deliver(&mut self, client: u64, pkt: &Packet)
        requires
            old(self).wf(),
        ensures
            final(self).wf(),
            final(self)@ == old(self)@.deliver(client, pkt@),
            final(self).deadline_index() == old(self).deadline_index(),
    {
        broadcast use vstd::std_specs::hash::group_hash_axioms;

        let scoped = match self.clients.get(&client) {
            Some(c) => c.scoped(pkt),
            None => None,
        };
        match scoped {
            Some(p) => {
                let ghost pv = p@;
                self.pending.push(Effect::Deliver(client, p));
                assert(self@.pending =~= old(self)@.pending.push(EffectView::Deliver(client, pv)));
            },
            None => {},
        }
    }

    /// Looks up the request behind `wire_id` and forgets it: the original
    /// id and the client come back, and the restore is reported. Nothing
    /// happens for a wire id that is not in flight.
    pub fn rpc_restore(&mut self, wire_id: u16) -> (r: Option<(u16, u64)>)
        requires
            old(self).wf(),
        ensures
            final(self).wf(),
            final(self)@ == old(self)@.restore(wire_id),
            match r {
                Some((id, client)) => old(self)@.rpc.contains_key(wire_id) && id == old(
                    self,
                )@.rpc[wire_id].id && client == old(self)@.rpc[wire_id].client,
                None => !old(self)@.rpc.contains_key(wire_id),
            },
    {
        let remap = match self.rpc.remove(wire_id) {
            None => {
                return None;
            },
            Some(r) => r,
        };
        self.send_event(Event::RpcRestore(wire_id, (remap.client, remap.id)));
        Some((remap.id, remap.client))
    }

    /// The timeout that applies to a request of `client`.
    fn timeout_of(&self, client: u64) -> (t: u64)
        ensures
            forall|now: u64| later(now, t) == #[trigger] request_deadline(self@.clients, client, now),
    {
        broadcast use vstd::std_specs::hash::group_hash_axioms;

        match self.clients.get(&client) {
            Some(c) => c.rpc_timeout(),
            // Timeout internal RPCs after 1 second
            None => INTERNAL_RPC_TIMEOUT,
        }
    }

    /// First half of forwarding: gives a request the next wire id.
    ///
    /// A packet that is no request comes back as it is. A request whose
    /// wire id is still in flight is refused with `OutOfMemory`; the wire id
    /// counter moves on all the same, so that the next request may hit a
    /// free one. Any other request is reported as remapped and comes back
    /// under its wire id, with what is to be remembered of it.
    pub fn remap_request(&mut self, pkt: Packet, client: u64, now: u64) -> (out: Outbound)
        requires
            old(self).wf(),
        ensures
            final(self).wf(),
            final(self).deadline_index() == old(self).deadline_index(),
            match pkt@.payload {
                PayloadView::RpcRequest { id, .. } => if old(self)@.rpc.contains_key(
                    old(self)@.next_rpc_id,
                ) {
                    &&& final(self)@ == old(self)@.collide()
                    &&& out matches Outbound::Refused(e)
                    &&& e@ == rpc_error_packet(id, RpcErrorCode::OutOfMemory, pkt@.routing)
                } else {
                    &&& final(self)@ == old(self)@.remap(id, client)
                    &&& out matches Outbound::Remapped(p, w, entry)
                    &&& w == old(self)@.next_rpc_id
                    &&& p@ == (PacketView { payload: pkt@.payload.with_id(w), ..pkt@ })
                    &&& entry@ == old(self)@.entry_for(id, client, pkt@.routing, now)
                },
                _ => final(self)@ == old(self)@ && out == Outbound::Plain(pkt),
            },
    {
        let Packet { payload, routing, ttl } = pkt;
        match payload {
            Payload::RpcRequest(req) => {
                let mut req = req;
                let wire_id = self.next_rpc_id;
                // Always move on, even if this id is taken, on the slim
                // chance that the next request hits an open spot.
                self.next_rpc_id = if wire_id == u16::MAX {
                    0
                } else {
                    wire_id + 1
                };
                if self.rpc.contains(wire_id) {
                    return Outbound::Refused(
                        PacketBuilder::make_rpc_error(req.id, RpcErrorCode::OutOfMemory, routing),
                    );
                }
                let timeout = add_span(now, self.timeout_of(client));
                let entry = RpcMapEntry {
                    id: req.id,
                    client: client,
                    route: routing.clone(),
                    timeout: timeout,
                };
                self.send_event(Event::RpcRemap((client, req.id), wire_id));
                req.id = wire_id;
                Outbound::Remapped(
                    Packet { payload: Payload::RpcRequest(req), routing, ttl },
                    wire_id,
                    entry,
                )
            },
            other => Outbound::Plain(Packet { payload: other, routing, ttl }),
        }
    }

    /// Second half of forwarding a request: books the outcome of handing it
    /// to the device.
    ///
    /// A request that the device took is remembered under `wire_id`. One
    /// that it did not take is answered with `Undefined`. A wire id that is
    /// in flight is never overwritten: such a request is answered with
    /// `OutOfMemory`, whatever the device did.
    pub fn settle_forward(&mut self, wire_id: u16, entry: RpcMapEntry, sent: bool) -> (r: Result<
        (),
        Packet,
    >)
        requires
            old(self).wf(),
        ensures
            final(self).wf(),
            if !sent {
                &&& final(self)@ == old(self)@
                &&& r matches Err(e)
                &&& e@ == rpc_error_packet(entry.id, RpcErrorCode::Undefined, entry.route@)
            } else if old(self)@.rpc.contains_key(wire_id) {
                &&& final(self)@ == old(self)@
                &&& r matches Err(e)
                &&& e@ == rpc_error_packet(entry.id, RpcErrorCode::OutOfMemory, entry.route@)
            } else {
                &&& final(self)@ == (ProxyView {
                    rpc: old(self)@.rpc.insert(wire_id, entry@),
                    ..old(self)@
                })
                &&& r is Ok
            },
    {
        if !sent {
            return Err(PacketBuilder::make_rpc_error(entry.id, RpcErrorCode::Undefined, entry.route));
        }
        match self.rpc.insert(wire_id, entry) {
            Ok(_) => Ok(()),
            Err(entry) => Err(
                PacketBuilder::make_rpc_error(entry.id, RpcErrorCode::OutOfMemory, entry.route),
            ),
        }
    }

    /// Forwards `pkt`, which `client` sent, to the device. `Ok` when there
    /// is nothing to tell the client; `Err` with the packet that is to go
    /// back to it.
    ///
    /// A request goes out under a fresh wire id and is remembered until
    /// `now` plus the client's timeout. Whether the device takes a packet is
    /// up to its queue: a request that it does not take is answered with
    /// `Undefined`, and no device takes none. Any other packet that it does
    /// not take is lost without a word.
    pub fn forward_to_device(&mut self, pkt: Packet, client: u64, now: u64) -> (r: Result<(), Packet>)
        requires
            old(self).wf(),
        ensures
            final(self).wf(),
            old(self)@.forwards(pkt@, client, now, final(self)@, returned(r)),
    {
        match self.remap_request(pkt, client, now) {
            Outbound::Refused(e) => Err(e),
            Outbound::Plain(p) => {
                let _ = self.send_to_device(p);
                Ok(())
            },
            Outbound::Remapped(p, wire_id, entry) => {
                let sent = self.send_to_device(p);
                self.settle_forward(wire_id, entry, sent)
            },
        }
    }

    /// Gives up every request whose deadline is `until` or earlier: each
    /// expiry is reported, and the client that waited, if it is still
    /// there, is told `error` under its own id. Earliest deadline first.
    pub fn dispatch_rpc_timeouts(&mut self, until: u64, error: RpcErrorCode)
        requires
            old(self).wf(),
        ensures
            final(self).wf(),
            exists|order: Seq<u16>|
                is_expiry_order(old(self)@.rpc, until, order) && final(self)@ == old(self)@.expire(
                    until,
                    order,
                    error,
                ),
    {
        let ghost v0 = self@;
        let expired = self.rpc.expire_until(until);
        let ghost order = wire_ids(expired@);
        let ghost rest = self@.rpc;
        let mut i: usize = 0;
        assert(order.take(0) =~= Seq::<u16>::empty());
        while i < expired.len()
            invariant
                i <= expired.len(),
                order == wire_ids(expired@),
                self.wf(),
                forall|k: int|
                    0 <= k < expired@.len() ==> (#[trigger] expired@[k]).1@ == v0.rpc[expired@[k].0],
                self@ == (ProxyView {
                    rpc: rest,
                    ..v0.notify_timeouts(v0.rpc, order.take(i as int), error)
                }),
            decreases expired.len() - i,
        {
            let wire_id = expired[i].0;
            let entry = &expired[i].1;
            assert(entry@ == v0.rpc[wire_id]);
            self.send_event(Event::RpcTimeout(wire_id));
            let notice = PacketBuilder::make_rpc_error(entry.id, error, entry.route.clone());
            self.deliver(entry.client, &notice);
            proof {
                let upto = order.take(i as int + 1);
                assert(upto.drop_last() =~= order.take(i as int));
                assert(upto.last() == wire_id);
            }
            i += 1;
        }
        assert(order.take(i as int) =~= order);
    }

    /// Sweeps the requests that have expired by `now`, answering each with
    /// `Timeout`, and says how long the proxy may sleep before the next
    /// one expires: until the earliest deadline left and a little longer,
    /// or the idle wait when nothing is in flight.
    pub fn process_rpc_timeouts(&mut self, now: u64) -> (wait: u64)
        requires
            old(self).wf(),
        ensures
            final(self).wf(),
            exists|order: Seq<u16>|
                is_expiry_order(old(self)@.rpc, now, order) && final(self)@ == old(self)@.expire(
                    now,
                    order,
                    RpcErrorCode::Timeout,
                ),
            wait == wait_until_next(final(self)@.rpc, now),
            forall|d: u64| is_earliest(final(self)@.rpc, d) ==> d > now,
    {
        self.dispatch_rpc_timeouts(now, RpcErrorCode::Timeout);
        match self.rpc.next_deadline() {
            Some(timeout) => {
                assert(is_earliest(self@.rpc, timeout));
                assert forall|d: u64| is_earliest(self@.rpc, d) implies d == timeout by {
                    let w = choose|w: u16| self@.rpc.contains_key(w) && self@.rpc[w].deadline == d;
                    let v = choose|v: u16|
                        self@.rpc.contains_key(v) && self@.rpc[v].deadline == timeout;
                    assert(self@.rpc.contains_key(w) && self@.rpc.contains_key(v));
                }
                proof {
                    let v = choose|v: u16|
                        self@.rpc.contains_key(v) && self@.rpc[v].deadline == timeout;
                    assert(self@.rpc.contains_key(v));
                }
                assert(timeout > now);
                add_span(timeout - now, TIMEOUT_SLACK)
            },
            None => {
                assert forall|d: u64| !is_earliest(self@.rpc, d) by {
                    if is_earliest(self@.rpc, d) {
                        let w = choose|w: u16|
                            self@.rpc.contains_key(w) && self@.rpc[w].deadline == d;
                        assert(self@.rpc.dom().contains(w));
                    }
                }
                IDLE_WAIT
            },
        }
    }

    /// Gives up every request in flight with `Undefined`: what the proxy
    /// does when the device is lost.
    pub fn cancel_active_rpcs(&mut self)
        requires
            old(self).wf(),
        ensures
            final(self).wf(),
            final(self)@.rpc == Map::<u16, EntryView>::empty(),
            exists|order: Seq<u16>|
                is_expiry_order(old(self)@.rpc, u64::MAX, order) && final(self)@ == old(
                    self,
                )@.expire(u64::MAX, order, RpcErrorCode::Undefined),
    {
        self.dispatch_rpc_timeouts(u64::MAX, RpcErrorCode::Undefined);
        assert(self@.rpc =~= Map::<u16, EntryView>::empty());
    }

    /// Moves the rate handshake to `state`.
    fn set_rate_state(&mut self, state: RateChange)
        requires
            old(self).wf(),
            state.is_static() || old(self)@.rates() is Some || old(self)@.device is None,
        ensures
            final(self).wf(),
            final(self)@ == old(self)@.with_rate_state(state),
            final(self).deadline_index() == old(self).deadline_index(),
    {
        match &mut self.device {
            Some(dev) => {
                dev.set_rate_change_state(state);
            },
            None => {},
        }
    }

    /// The state of the rate handshake and the rates it works with, where
    /// a device is open and its transport has two rates.
    fn rate_context(&self) -> (r: Option<(RateChange, RateInfo, u64)>)
        ensures
            match r {
                Some((state, rates, last_rx)) => {
                    &&& self@.rate_state() == Some(state)
                    &&& self@.rates() == Some(rates)
                    &&& self@.device matches Some(d)
                    &&& d.last_rx == last_rx
                },
                None => self@.rate_state() is None && self@.rates() is None,
            },
    {
        match &self.device {
            Some(dev) => match dev.rate_info() {
                Some(rates) => Some((dev.rate_change_state(), rates, dev.last_rx())),
                None => None,
            },
            None => None,
        }
    }

    /// Books the reply to a request of the proxy's own. Where the reply
    /// means that the transport is to switch its rate now, that rate comes
    /// back: the caller switches the transport and reports the outcome
    /// with `rate_set_result`.
    pub fn internal_rpc_reply(&mut self, rep: &RpcReplyPayload) -> (r: Option<u32>)
        requires
            old(self).wf(),
        ensures
            final(self).wf(),
            final(self)@ == old(self)@.rate_reply(rep.reply@),
            r == old(self)@.rate_to_set(),
    {
        let (state, rates) = match self.rate_context() {
            Some((state, rates, _)) => (state, rates),
            None => {
                return None;
            },
        };
        match state {
            RateChange::WaitingDeviceRate => {
                let value = parse_rate(&rep.reply);
                if rate_compatible(rates.target_bps, value) {
                    self.send_event(Event::AutoRateCompatible(value));
                    self.set_rate_state(RateChange::SetDeviceRate);
                } else {
                    self.send_event(Event::AutoRateIncompatible(value));
                    self.send_event(Event::AutoRateGaveUp);
                    self.set_rate_state(RateChange::GaveUp);
                }
                None
            },
            RateChange::WaitingNewRate => {
                self.send_event(Event::SetRate(rates.target_bps));
                Some(rates.target_bps)
            },
            _ => None,
        }
    }

    /// Books the outcome of switching the transport to the target rate.
    pub fn rate_set_result(&mut self, ok: bool)
        requires
            old(self).wf(),
        ensures
            final(self).wf(),
            final(self)@ == old(self)@.rate_set(ok),
    {
        match self.rate_context() {
            Some((RateChange::WaitingNewRate, _, _)) => {
                if ok {
                    self.set_rate_state(RateChange::RateChanged);
                } else {
                    self.send_event(Event::AutoRateGaveUp);
                    self.set_rate_state(RateChange::GaveUp);
                }
            },
            _ => {},
        }
    }

    /// Books an error in answer to a request of the proxy's own. The link
    /// stays at its default rate until the transport is opened again.
    pub fn internal_rpc_error(&mut self, err: &RpcErrorPayload)
        requires
            old(self).wf(),
        ensures
            final(self).wf(),
            final(self)@ == old(self)@.rate_error(err.error),
    {
        self.send_event(Event::AutoRateRpcError(err.error));
        if self.device.is_some() {
            if self.rate_context().is_some() {
                self.set_rate_state(RateChange::GaveUp);
            }
            self.send_event(Event::AutoRateGaveUp);
        }
    }

    /// Whether a device is open.
    pub fn has_device(&self) -> (b: bool)
        ensures
            b == self@.device is Some,
    {
        self.device.is_some()
    }

    /// Makes sure that a device is open, given what opening the transport
    /// gave where none was open: `true` when a device is open afterwards. An
    /// open device is kept, whatever `opened` holds.
    pub fn try_setup_device(&mut self, opened: Option<ProxyDevice>) -> (ok: bool)
        requires
            old(self).wf(),
            opened matches Some(d) ==> d@.wf(),
        ensures
            final(self).wf(),
            ok == (old(self)@.device is Some || opened is Some),
            final(self)@ == (ProxyView {
                device: if old(self)@.device is Some {
                    old(self)@.device
                } else {
                    match opened {
                        Some(d) => Some(d@),
                        None => None,
                    }
                },
                ..old(self)@
            }),
    {
        if self.device.is_some() {
            return true;
        }
        match opened {
            Some(dev) => {
                self.device = Some(dev);
                true
            },
            None => false,
        }
    }

    /// Registers `client` under the next client id, which comes back, and
    /// reports it. Ids are never used twice: a proxy that has given out
    /// every id takes no more clients.
    pub fn add_client(&mut self, client: ProxyClient) -> (r: Option<u64>)
        requires
            old(self).wf(),
        ensures
            final(self).wf(),
            if old(self)@.next_client_id < u64::MAX {
                r == Some(old(self)@.next_client_id) && final(self)@ == old(self)@.admit_client(
                    client@,
                )
            } else {
                r is None && final(self)@ == old(self)@
            },
    {
        broadcast use vstd::std_specs::hash::group_hash_axioms;

        if self.next_client_id == u64::MAX {
            return None;
        }
        let id = self.next_client_id;
        self.send_event(Event::NewClient(id));
        let ghost cv = client@;
        self.clients.insert(id, client);
        self.next_client_id += 1;
        assert(self@.clients =~= old(self)@.clients.insert(id, cv));
        Some(id)
    }

    /// Reports that `client` is gone and marks it to be dropped.
    pub fn mark_client(&mut self, client: u64)
        requires
            old(self).wf(),
        ensures
            final(self).wf(),
            final(self)@ == old(self)@.doom(client),
    {
        self.clients_to_drop.insert(client);
        self.send_event(Event::ClientTerminated(client));
    }

    /// Drops every client that was marked.
    pub fn drop_marked_clients(&mut self)
        requires
            old(self).wf(),
        ensures
            final(self).wf(),
            final(self)@ == old(self)@.bury(),
    {
        broadcast use vstd::std_specs::hash::group_hash_axioms;

        let ghost v0 = self@;
        let ids = set_items(&self.clients_to_drop);
        let mut i: usize = 0;
        assert(v0.clients.remove_keys(ids@.take(0).to_set()) =~= v0.clients);
        while i < ids.len()
            invariant
                i <= ids.len(),
                self.wf(),
                v0.wf(),
                ids@.to_set() == v0.doomed,
                self@ == (ProxyView {
                    clients: v0.clients.remove_keys(ids@.take(i as int).to_set()),
                    ..v0
                }),
            decreases ids.len() - i,
        {
            let id = ids[i];
            let ghost kept = self@.clients;
            let _ = self.clients.remove(&id);
            proof {
                assert(self@.clients =~= kept.remove(id));
                let before = ids@.take(i as int);
                let upto = ids@.take(i as int + 1);
                assert(upto =~= before.push(id));
                assert forall|x: u64| upto.to_set().contains(x) <==> (before.to_set().contains(x)
                    || x == id) by {
                    if before.contains(x) {
                        let k = choose|k: int| 0 <= k < before.len() && before[k] == x;
                        assert(upto[k] == x);
                    }
                    if x == id {
                        assert(upto[i as int] == id);
                    }
                    if upto.contains(x) {
                        let k = choose|k: int| 0 <= k < upto.len() && upto[k] == x;
                        if k < i {
                            assert(before[k] == x);
                        }
                    }
                }
                assert(self@.clients =~= v0.clients.remove_keys(upto.to_set()));
            }
            i += 1;
        }
        assert(ids@.take(i as int) =~= ids@);
        self.clients_to_drop.clear();
        assert(self@.doomed =~= Set::<u64>::empty());
    }

    /// Sends a request of the proxy's own to the device.
    pub fn send_internal_rpc(&mut self, pkt: Packet, now: u64) -> (r: Result<(), Packet>)
        requires
            old(self).wf(),
        ensures
            final(self).wf(),
            old(self)@.forwards(pkt@, 0, now, final(self)@, returned(r)),
    {
        self.forward_to_device(pkt, 0, now)
    }

    /// Upkeep of the rate handshake. Where the transport is to go back to
    /// its default rate, that rate comes back, for the caller to set.
    ///
    /// A request that cannot be sent leaves the handshake where it is, to
    /// try again at the next upkeep.
    pub fn autonegotiation(&mut self, now: u64) -> (r: Option<u32>)
        requires
            old(self).wf(),
        ensures
            final(self).wf(),
            old(self)@.upkeep(now, final(self)@),
            r == old(self)@.fallback_rate(now),
    {
        let (state, rates, last_rx) = match self.rate_context() {
            Some(c) => c,
            None => {
                return None;
            },
        };
        match state {
            RateChange::QueryDeviceRate => {
                let arg = write_u32(rates.target_bps);
                let pkt = PacketBuilder::make_rpc_request(
                    RATE_QUERY_METHOD,
                    arg.as_slice(),
                    0,
                    DeviceRoute::root(),
                );
                match self.send_internal_rpc(pkt, now) {
                    Ok(_) => {
                        self.send_event(Event::AutoRateQueried(rates.target_bps));
                        self.set_rate_state(RateChange::WaitingDeviceRate);
                    },
                    Err(_) => {},
                }
                None
            },
            RateChange::SetDeviceRate => {
                if self.rpc.is_empty() {
                    let arg = write_u32(rates.target_bps);
                    let pkt = PacketBuilder::make_rpc_request(
                        RATE_SET_METHOD,
                        arg.as_slice(),
                        0,
                        DeviceRoute::root(),
                    );
                    match self.send_internal_rpc(pkt, now) {
                        Ok(_) => {
                            self.send_event(Event::AutoRateSet(rates.target_bps));
                            self.set_rate_state(RateChange::WaitingNewRate);
                        },
                        Err(_) => {},
                    }
                } else {
                    self.send_event(Event::AutoRateWait);
                }
                None
            },
            RateChange::RateChanged => {
                if now > last_rx && now - last_rx > NO_DATA_LIMIT {
                    self.send_event(Event::NoData);
                    self.set_rate_state(RateChange::GaveUp);
                    self.send_event(Event::SetRate(rates.default_bps));
                    Some(rates.default_bps)
                } else {
                    None
                }
            },
            // In any other case, do nothing
            _ => None,
        }
    }

    /// Whether `client` is registered.
    pub fn has_client(&self, client: u64) -> (b: bool)
        ensures
            b == self@.clients.contains_key(client),
    {
        broadcast use vstd::std_specs::hash::group_hash_axioms;

        self.clients.contains_key(&client)
    }

    /// The ids of the registered clients, each once, in no particular order.
    pub fn client_ids(&self) -> (ids: Vec<u64>)
        ensures
            is_roll_call(self@.clients, ids@),
    {
        broadcast use vstd::std_specs::hash::group_hash_axioms;

        let mut ids: Vec<u64> = Vec::new();
        proof {
            vstd::std_specs::hash::axiom_spec_keys_iter(&self.clients);
        }
        for k in it: self.clients.keys()
            invariant
                it.seq() == self.clients.keys().remaining(),
                ids@.len() == it.index(),
                forall|i: int| 0 <= i < ids@.len() ==> ids@[i] == *it.seq()[i],
        {
            ids.push(*k);
        }
        proof {
            let keys = self.clients.keys().remaining();
            assert(ids@ =~= keys.unref());
            assert forall|i: int, j: int|
                0 <= i < ids@.len() && 0 <= j < ids@.len() && i != j implies ids@[i] != ids@[j] by {
                assert(keys[i] != keys[j]);
            }
            assert forall|id: u64| ids@.contains(id) <==> self@.clients.contains_key(id) by {
                assert(keys.unref().to_set().contains(id) <==> self.clients@.dom().contains(id));
            }
        }
        ids
    }

    /// Books one packet that the device sent.
    ///
    /// A reply or an error answers a request: it goes to the client that
    /// asked, under the id that the client chose, or nowhere. Any other
    /// packet is offered to every client. Where the packet means that the
    /// transport is to switch its rate now, that rate comes back: the
    /// caller switches the transport and reports the outcome with
    /// `rate_set_result`.
    pub fn handle_device_packet(&mut self, pkt: Packet) -> (r: Option<u32>)
        requires
            old(self).wf(),
        ensures
            final(self).wf(),
            match pkt@.payload {
                PayloadView::RpcReply { id, .. } => final(self)@ == old(self)@.answer(id, pkt@) && r
                    == old(self)@.switch_after(id, pkt@),
                PayloadView::RpcError { id, .. } => final(self)@ == old(self)@.answer(id, pkt@) && r
                    == old(self)@.switch_after(id, pkt@),
                _ => r is None && exists|order: Seq<u64>|
                    is_roll_call(old(self)@.clients, order) && final(self)@ == old(self)@.fan_out(
                        order,
                        pkt@,
                    ),
            },
    {
        let ghost v0 = self@;
        let Packet { payload, routing, ttl } = pkt;
        match payload {
            Payload::RpcReply(rep) => {
                let mut rep = rep;
                match self.rpc_restore(rep.id) {
                    Some((original_id, client)) => {
                        rep.id = original_id;
                        if self.has_client(client) {
                            let back = Packet { payload: Payload::RpcReply(rep), routing, ttl };
                            self.deliver(client, &back);
                            None
                        } else if client == 0 {
                            self.internal_rpc_reply(&rep)
                        } else {
                            None
                        }
                    },
                    None => None,
                }
            },
            Payload::RpcError(err) => {
                let mut err = err;
                match self.rpc_restore(err.id) {
                    Some((original_id, client)) => {
                        err.id = original_id;
                        if self.has_client(client) {
                            let back = Packet { payload: Payload::RpcError(err), routing, ttl };
                            self.deliver(client, &back);
                        } else if client == 0 {
                            self.internal_rpc_error(&err);
                        }
                        None
                    },
                    None => None,
                }
            },
            other => {
                let pkt = Packet { payload: other, routing, ttl };
                let ids = self.client_ids();
                let mut i: usize = 0;
                assert(ids@.take(0) =~= Seq::<u64>::empty());
                while i < ids.len()
                    invariant
                        i <= ids.len(),
                        self.wf(),
                        self@ == v0.fan_out(ids@.take(i as int), pkt@),
                    decreases ids.len() - i,
                {
                    self.deliver(ids[i], &pkt);
                    proof {
                        let upto = ids@.take(i as int + 1);
                        assert(upto.drop_last() =~= ids@.take(i as int));
                        assert(upto.last() == ids@[i as int]);
                    }
                    i += 1;
                }
                assert(ids@.take(i as int) =~= ids@);
                None
            },
        }
    }

    /// Opens the proxy's run with what opening the transport gave: `false`,
    /// and a report of the failure, where it gave nothing.
    pub fn start(&mut self, opened: Option<ProxyDevice>, now: u64) -> (ok: bool)
        requires
            old(self).wf(),
            opened matches Some(d) ==> d@.wf(),
        ensures
            final(self).wf(),
            ok == (old(self)@.device is Some || opened is Some),
            final(self)@ == if old(self)@.device is Some {
                ProxyView { device_timeout: now, ..old(self)@ }.emit(Event::SensorConnected)
            } else {
                match opened {
                    Some(d) => ProxyView { device: Some(d@), device_timeout: now, ..old(self)@ }.emit(
                        Event::SensorConnected,
                    ),
                    None => old(self)@.emit(Event::FailedToConnect),
                }
            },
    {
        if !self.try_setup_device(opened) {
            self.send_event(Event::FailedToConnect);
            false
        } else {
            self.send_event(Event::SensorConnected);
            self.device_timeout = now;
            true
        }
    }

    /// Books the loss of the device at `now`.
    pub fn device_lost(&mut self, now: u64)
        requires
            old(self).wf(),
        ensures
            final(self).wf(),
            final(self)@ == old(self)@.lose_device(now),
    {
        self.device = None;
        self.device_timeout = add_span(
            now,
            match self.reconnect_timeout {
                Some(t) => t,
                None => 0,
            },
        );
        self.send_event(Event::SensorDisconnected);
    }

    /// Makes sure that a device is open, where opening the transport gave
    /// `opened`, and says how long the proxy may sleep, given that it
    /// might have slept `wait`: `None` when it is to stop, because the
    /// device is missing and the time to reconnect has run out.
    pub fn ensure_device(&mut self, opened: Option<ProxyDevice>, now: u64, wait: u64) -> (r: Option<
        u64,
    >)
        requires
            old(self).wf(),
            opened matches Some(d) ==> d@.wf(),
        ensures
            final(self).wf(),
            r == old(self)@.wait_for_device(device_view(opened), now, wait),
            old(self)@.device is Some ==> final(self)@ == old(self)@,
            old(self)@.device is None ==> exists|order: Seq<u16>|
                is_expiry_order(old(self)@.rpc, u64::MAX, order) && final(self)@ == old(
                    self,
                )@.ensure_device(device_view(opened), now, order),
    {
        if self.device.is_some() {
            return Some(wait);
        }
        let ghost v0 = self@;
        let ghost dv = device_view(opened);
        self.cancel_active_rpcs();
        let ghost order = choose|order: Seq<u16>|
            is_expiry_order(v0.rpc, u64::MAX, order) && self@ == v0.expire(
                u64::MAX,
                order,
                RpcErrorCode::Undefined,
            );
        proof {
            lemma_notify_frame(v0, v0.rpc, order, RpcErrorCode::Undefined);
        }
        let r = if self.try_setup_device(opened) {
            self.send_event(Event::SensorReconnected);
            Some(wait)
        } else if now > self.device_timeout {
            self.send_event(Event::FailedToReconnect);
            None
        } else {
            Some(if wait < RECONNECT_RETRY_WAIT {
                wait
            } else {
                RECONNECT_RETRY_WAIT
            })
        };
        assert(is_expiry_order(v0.rpc, u64::MAX, order) && self@ == v0.ensure_device(
            dv,
            now,
            order,
        ));
        r
    }

    /// Upkeep of the rate handshake, where it is under way, and how long
    /// the proxy may sleep, given that it might have slept `wait`. Where
    /// the transport is to go back to its default rate, that rate comes
    /// back too, for the caller to set.
    pub fn negotiate(&mut self, now: u64, wait: u64) -> (r: (Option<u32>, u64))
        requires
            old(self).wf(),
        ensures
            final(self).wf(),
            old(self)@.negotiates(now, final(self)@, r.0, wait, r.1),
    {
        let needed = match &self.device {
            Some(dev) => dev.needs_autonegotiation(),
            None => false,
        };
        if needed {
            let rate = self.autonegotiation(now);
            (rate, if wait < AUTONEG_WAIT {
                wait
            } else {
                AUTONEG_WAIT
            })
        } else {
            (None, wait)
        }
    }

    /// Books one packet that `client` sent: it is forwarded to the device,
    /// and what forwarding hands back goes to the client's outbound queue.
    pub fn handle_client_packet(&mut self, client: u64, pkt: Packet, now: u64)
        requires
            old(self).wf(),
        ensures
            final(self).wf(),
            old(self)@.client_packet(client, pkt@, now, final(self)@),
    {
        let ghost v0 = self@;
        let ghost pv = pkt@;
        let r = self.forward_to_device(pkt, client, now);
        let ghost mid = self@;
        let ghost back = returned(r);
        match r {
            Ok(_) => {},
            Err(rpkt) => {
                self.deliver(client, &rpkt);
            },
        }
        assert(v0.forwards(pv, client, now, mid, back) && self@ == mid.give_back(client, back));
    }

    /// Takes what `client` has sent, up to the drain limit, and forwards
    /// it. `true` when the client was found gone, which is reported, and
    /// for which the client is marked to be dropped; what it sent before
    /// it left is forwarded first.
    pub fn drain_client(&mut self, client: u64, now: u64) -> (gone: bool)
        requires
            old(self).wf(),
        ensures
            final(self).wf(),
            final(self)@.clients == old(self)@.clients,
            final(self)@.device == old(self)@.device,
            final(self)@.next_client_id == old(self)@.next_client_id,
            old(self)@.grown_for(client, final(self)@),
            final(self)@.doomed == if gone {
                old(self)@.doomed.insert(client)
            } else {
                old(self)@.doomed
            },
            gone ==> old(self)@.clients.contains_key(client),
            old(self)@.client_drained(client, now, final(self)@, gone),
    {
        broadcast use vstd::std_specs::hash::group_hash_axioms;

        let ghost v0 = self@;
        let ghost mut pkts: Seq<PacketView> = Seq::empty();
        let mut taken: usize = 0;
        while taken < DRAIN_LIMIT
            invariant
                v0 == old(self)@,
                self.wf(),
                self@.clients == v0.clients,
                self@.device == v0.device,
                self@.next_client_id == v0.next_client_id,
                self@.doomed == v0.doomed,
                v0.grown_for(client, self@),
                taken <= DRAIN_LIMIT,
                pkts.len() == taken,
                v0.client_packets(client, pkts, now, self@),
                pkts.len() > 0 ==> v0.clients.contains_key(client),
                forall|i: int|
                    0 <= i < pkts.len() ==> v0.clients[client].scope.is_prefix_of(
                        (#[trigger] pkts[i]).routing,
                    ),
            decreases DRAIN_LIMIT - taken,
        {
            let ghost before = self@;
            let received = match self.clients.get(&client) {
                Some(c) => c.recv(),
                None => Err(TryRecvError::Empty),
            };
            match received {
                Ok(pkt) => {
                    let ghost pv = pkt@;
                    self.handle_client_packet(client, pkt, now);
                    proof {
                        let longer = pkts.push(pv);
                        assert(longer.drop_last() =~= pkts);
                        assert(longer.last() == pv);
                        assert(v0.client_packets(client, longer.drop_last(), now, before)
                            && before.client_packet(client, longer.last(), now, self@));
                        assert(v0.client_packets(client, longer, now, self@));
                        pkts = longer;
                    }
                },
                Err(TryRecvError::Empty) => {
                    assert(v0.client_drained(client, now, self@, false));
                    return false;
                },
                Err(TryRecvError::Disconnected) => {
                    self.mark_client(client);
                    assert(v0.client_drained(client, now, self@, true));
                    return true;
                },
            }
            taken += 1;
        }
        assert(v0.client_drained(client, now, self@, false));
        false
    }

    /// Takes the clients that wait to be registered, up to the drain
    /// limit, and registers each. `false` when the queue was found closed:
    /// no client will ever arrive, which is reported, and the proxy is to stop.
    pub fn accept_clients(&mut self) -> (open: bool)
        requires
            old(self).wf(),
        ensures
            final(self).wf(),
            old(self)@.clients_accepted(final(self)@, open),
            final(self)@.rpc == old(self)@.rpc,
            final(self)@.device == old(self)@.device,
            final(self)@.doomed == old(self)@.doomed,
            final(self)@.next_client_id >= old(self)@.next_client_id,
            forall|id: u64| #[trigger]
                old(self)@.clients.contains_key(id) ==> final(self)@.clients.contains_key(id)
                    && final(self)@.clients[id] == old(self)@.clients[id],
            forall|id: u64| #[trigger]
                final(self)@.clients.contains_key(id) && !old(self)@.clients.contains_key(id)
                    ==> old(self)@.next_client_id <= id < final(self)@.next_client_id,
    {
        let ghost v0 = self@;
        let ghost mut arrivals: Seq<ClientView> = Seq::empty();
        let mut taken: usize = 0;
        while taken < DRAIN_LIMIT
            invariant
                v0 == old(self)@,
                self.wf(),
                v0.wf(),
                taken <= DRAIN_LIMIT,
                arrivals.len() == taken,
                self@ == v0.take_clients(arrivals),
                self@.rpc == v0.rpc,
                self@.device == v0.device,
                self@.doomed == v0.doomed,
                self@.next_client_id >= v0.next_client_id,
                forall|id: u64| #[trigger]
                    v0.clients.contains_key(id) ==> self@.clients.contains_key(id)
                        && self@.clients[id] == v0.clients[id],
                forall|id: u64| #[trigger]
                    self@.clients.contains_key(id) && !v0.clients.contains_key(id)
                        ==> v0.next_client_id <= id < self@.next_client_id,
            decreases DRAIN_LIMIT - taken,
        {
            match try_recv(&self.new_client_queue) {
                Ok(client) => {
                    let ghost cv = client@;
                    let _ = self.add_client(client);
                    proof {
                        let longer = arrivals.push(cv);
                        assert(longer.drop_last() =~= arrivals);
                        assert(longer.last() == cv);
                        arrivals = longer;
                    }
                },
                Err(TryRecvError::Empty) => {
                    assert(v0.clients_accepted(self@, true));
                    return true;
                },
                Err(TryRecvError::Disconnected) => {
                    self.send_event(Event::Exiting);
                    assert(v0.clients_accepted(self@, false));
                    return false;
                },
            }
            taken += 1;
        }
        assert(v0.clients_accepted(self@, true));
        true
    }

    /// Books one thing that came out of the device's receive queue. A
    /// receive error is reported; one that is no protocol error is fatal.
    pub fn handle_device_receipt(&mut self, res: Result<Packet, RecvError>) -> (r: DeviceDrain)
        requires
            old(self).wf(),
        ensures
            final(self).wf(),
            old(self)@.device_receipt(crate::device::receipt_view(res), final(self)@, r),
    {
        match res {
            Ok(pkt) => match self.handle_device_packet(pkt) {
                Some(rate) => DeviceDrain::SetRate(rate),
                None => DeviceDrain::Idle,
            },
            Err(RecvError::Protocol(perror)) => {
                self.send_event(Event::ProtocolError(perror));
                DeviceDrain::Idle
            },
            // All other errors are treated as fatal.
            Err(err) => {
                self.send_event(Event::FatalError(err));
                DeviceDrain::Fatal
            },
        }
    }

    /// Takes what waits on the device's receive queue, up to the drain
    /// limit, and books it, until something asks for the caller: a rate
    /// to set, the loss of the device, or a fatal error.
    pub fn drain_device(&mut self, now: u64) -> (r: DeviceDrain)
        requires
            old(self).wf(),
        ensures
            final(self).wf(),
            old(self)@.device_drained(now, final(self)@, r),
            final(self)@.clients == old(self)@.clients,
            final(self)@.next_client_id == old(self)@.next_client_id,
            final(self)@.doomed == old(self)@.doomed,
            final(self)@.next_rpc_id == old(self)@.next_rpc_id,
            forall|w: u16| #[trigger]
                final(self)@.rpc.contains_key(w) ==> old(self)@.rpc.contains_key(w) && final(self)@.rpc[w] == old(self)@.rpc[w],
            old(self)@.device is None ==> r is Idle && final(self)@ == old(self)@,
            r is Disconnected ==> final(self)@.device is None,
            !(r is Disconnected) ==> (final(self)@.device is Some <==> old(self)@.device is Some),
            r matches DeviceDrain::SetRate(rate) ==> final(self)@.rate_to_set() == Some(rate),
    {
        let ghost v0 = self@;
        let ghost mut receipts: Seq<Result<PacketView, RecvError>> = Seq::empty();
        let ghost nothing: Result<PacketView, RecvError> = Err(RecvError::Io);
        let mut taken: usize = 0;
        while taken < DRAIN_LIMIT
            invariant
                v0 == old(self)@,
                self.wf(),
                self@.clients == v0.clients,
                self@.next_client_id == v0.next_client_id,
                self@.doomed == v0.doomed,
                self@.next_rpc_id == v0.next_rpc_id,
                forall|w: u16| #[trigger]
                    self@.rpc.contains_key(w) ==> v0.rpc.contains_key(w) && self@.rpc[w]
                        == v0.rpc[w],
                v0.device is None ==> self@ == v0,
                self@.device is Some <==> v0.device is Some,
                taken <= DRAIN_LIMIT,
                receipts.len() == taken,
                v0.device is None ==> receipts.len() == 0,
                v0.device_steps(receipts, now, self@),
            decreases DRAIN_LIMIT - taken,
        {
            let ghost before = self@;
            let received = match &mut self.device {
                Some(dev) => dev.try_recv(now),
                None => {
                    assert(v0.device_drained(now, self@, DeviceDrain::Idle)) by {
                        assert(v0.device_steps(receipts, now, self@));
                    }
                    return DeviceDrain::Idle;
                },
            };
            let ghost v1 = self@;
            match received {
                Ok(res) => {
                    let ghost pv = crate::device::receipt_view(res);
                    assert(v1 == before.receive(pv, now));
                    let step = self.handle_device_receipt(res);
                    proof {
                        lemma_device_step_frame(v1, pv, self@);
                        assert(before.device_step(pv, now, self@, step));
                    }
                    match step {
                        DeviceDrain::Idle => {
                            proof {
                                let longer = receipts.push(pv);
                                assert(longer.drop_last() =~= receipts);
                                assert(longer.last() == pv);
                                assert(v0.device_steps(longer.drop_last(), now, before)
                                    && before.device_step(
                                    longer.last(),
                                    now,
                                    self@,
                                    DeviceDrain::Idle,
                                ));
                                assert(v0.device_steps(longer, now, self@));
                                receipts = longer;
                            }
                        },
                        other => {
                            assert(v0.device_drained(now, self@, other)) by {
                                assert(v0.device_steps(receipts, now, before)
                                    && before.device_step(pv, now, self@, other));
                            }
                            return other;
                        },
                    }
                },
                Err(TryRecvError::Empty) => {
                    assert(v0.device_drained(now, self@, DeviceDrain::Idle)) by {
                        assert(v0.device_steps(receipts, now, self@));
                    }
                    return DeviceDrain::Idle;
                },
                Err(TryRecvError::Disconnected) => {
                    self.device_lost(now);
                    assert(v0.device_drained(now, self@, DeviceDrain::Disconnected)) by {
                        assert(v0.device_steps(receipts, now, before) && self@
                            == before.lose_device(now));
                    }
                    return DeviceDrain::Disconnected;
                },
            }
            taken += 1;
        }
        assert(v0.device_drained(now, self@, DeviceDrain::Idle)) by {
            assert(v0.device_steps(receipts, now, self@));
        }
        DeviceDrain::Idle
    }

    /// Hands everything that was decided to the queues, in order: reports
    /// to the status sink, packets to the clients' outbound queues. No
    /// queue is waited for: what a queue does not take is dropped, for
    /// that queue only.
    pub fn flush(&mut self)
        requires
            old(self).wf(),
        ensures
            final(self).wf(),
            final(self)@ == old(self)@.flushed(),
    {
        broadcast use vstd::std_specs::hash::group_hash_axioms;

        let mut effects: Vec<Effect> = Vec::new();
        core::mem::swap(&mut self.pending, &mut effects);
        assert(self@.pending =~= Seq::<EffectView>::empty());
        for effect in effects {
            match effect {
                Effect::Emit(event) => {
                    match &self.status_queue {
                        Some(sink) => {
                            let _ = try_send(sink, event);
                        },
                        None => {},
                    }
                },
                Effect::Deliver(client, pkt) => {
                    match self.clients.get(&client) {
                        Some(c) => {
                            let _ = c.offer(pkt);
                        },
                        None => {},
                    }
                },
            }
        }
    }

    /// Waits, for `timeout` or a day at most, until a client's inbound
    /// queue, the queue of new clients or the device's receive queue has
    /// something waiting, and says which. A queue that was closed counts as
    /// ready.
    ///
    /// The inbound queue of every registered client is registered with
    /// the selector first, each once, then the queue of new clients, then
    /// the device's receive queue if there is a device; the number that
    /// the selector gives names the queue.
    pub fn wait_ready(&self, timeout: u64) -> (r: Ready)
        ensures
            r matches Ready::Client(id) ==> self@.clients.contains_key(id),
            r is Device ==> self@.device is Some,
            exists|order: Seq<u64>, index: Option<usize>|
                {
                    &&& #[trigger] ready_named(order, index) == r
                    &&& is_roll_call(self@.clients, order)
                    &&& index matches Some(i) ==> i <= order.len() + if self@.device is Some {
                        1nat
                    } else {
                        0nat
                    }
                },
    {
        broadcast use vstd::std_specs::hash::group_hash_axioms;

        let ids = self.client_ids();
        if ids.len() >= usize::MAX - 2 {
            assert(ready_named(ids@, None) == Ready::Timeout);
            return Ready::Timeout;
        }
        let mut sel = select_new();
        let mut i: usize = 0;
        while i < ids.len()
            invariant
                i <= ids.len(),
                ids.len() < usize::MAX - 2,
                select_len(sel) == i,
                is_roll_call(self@.clients, ids@),
            decreases ids.len() - i,
        {
            assert(ids@.contains(ids@[i as int]));
            match self.clients.get(&ids[i]) {
                Some(client) => {
                    let _ = select_recv(&mut sel, client.inbound());
                },
                None => {
                    assert(false);
                },
            }
            i += 1;
        }
        let _ = select_recv(&mut sel, &self.new_client_queue);
        match &self.device {
            Some(device) => {
                let _ = select_recv(&mut sel, device.receive_queue());
            },
            None => {},
        }
        let timeout = if timeout > MAX_SELECT_WAIT {
            MAX_SELECT_WAIT
        } else {
            timeout
        };
        let index = select_ready_timeout(&mut sel, timeout);
        let r = ready_source(&ids, index);
        assert(ready_named(ids@, index) == r);
        proof {
            if let Ready::Client(id) = r {
                assert(ids@.contains(ids@[index.unwrap() as int]));
            }
        }
        r
    }

    /// What was decided and not sent yet, in order.
    pub fn pending(&self) -> (r: &Vec<Effect>)
        ensures
            effect_views(r@) == self@.pending,
    {
        &self.pending
    }

    /// The remap table.
    pub fn rpc_table(&self) -> (t: &RemapTable)
        ensures
            t.entries() == self@.rpc,
            t.index() == self.deadline_index(),
    {
        &self.rpc
    }

    /// The wire id that the next request will be given.
    pub fn next_rpc_id(&self) -> (id: u16)
        ensures
            id == self@.next_rpc_id,
    {
        self.next_rpc_id
    }

    /// The open device, if there is one.
    pub fn device(&self) -> (d: Option<&ProxyDevice>)
        ensures
            match d {
                Some(dev) => self@.device == Some(dev@),
                None => self@.device is None,
            },
    {
        self.device.as_ref()
    }

    /// Until when a lost device may still be reopened.
    pub fn device_timeout(&self) -> (t: u64)
        ensures
            t == self@.device_timeout,
    {
        self.device_timeout
    }

    /// One round of housekeeping at `now`, where opening the transport
    /// gave `opened` if no device was open: expired requests are swept, the
    /// device is made sure of, the rate handshake is kept going, everything
    /// decided is sent, and then the clients that left are dropped. What
    /// comes back says whether to stop, or else how long to wait for a queue.
    pub fn iteration(&mut self, opened: Option<ProxyDevice>, now: u64) -> (plan: Iteration)
        requires
            old(self).wf(),
            opened matches Some(d) ==> d@.wf(),
        ensures
            final(self).wf(),
            old(self)@.round(device_view(opened), now, final(self)@, plan),
    {
        let ghost v0 = self@;
        let ghost dv = device_view(opened);
        let wait = self.process_rpc_timeouts(now);
        let ghost swept = self@;
        let ghost due = choose|o: Seq<u16>|
            is_expiry_order(v0.rpc, now, o) && swept == v0.expire(now, o, RpcErrorCode::Timeout);
        let sure_wait = self.ensure_device(opened, now, wait);
        let ghost sure = self@;
        let ghost lost = if swept.device is None {
            choose|o: Seq<u16>|
                is_expiry_order(swept.rpc, u64::MAX, o) && sure == swept.ensure_device(dv, now, o)
        } else {
            Seq::<u16>::empty()
        };
        match sure_wait {
            None => {
                self.flush();
                let plan = Iteration::Stop;
                assert(v0.round_with(dv, now, self@, plan, due, lost, sure));
                plan
            },
            Some(wait) => {
                let (set_rate, timeout) = self.negotiate(now, wait);
                let ghost kept = self@;
                self.flush();
                self.drop_marked_clients();
                let plan = Iteration::Wait { timeout, set_rate };
                assert(v0.round_with(dv, now, self@, plan, due, lost, kept));
                plan
            },
        }
    }

    /// Takes what the queue named by `ready` holds, up to the drain limit,
    /// and books it. What comes back says how to go on: to stop, where the
    /// queue of new clients was found closed or the transport failed for
    /// good. What was decided is left to be sent, the last reports among it.
    pub fn serve(&mut self, ready: Ready, now: u64) -> (r: Served)
        requires
            old(self).wf(),
        ensures
            final(self).wf(),
            serves(old(self)@, ready, now, final(self)@, r),
            r matches Served::SetRate(rate) ==> final(self)@.rate_to_set() == Some(rate),
    {
        let ghost v0 = self@;
        match ready {
            Ready::Timeout => Served::Continue,
            Ready::Client(id) => {
                let gone = self.drain_client(id, now);
                assert(v0.client_drained(id, now, self@, gone));
                Served::Continue
            },
            Ready::NewClient => if self.accept_clients() {
                Served::Continue
            } else {
                Served::Stop
            },
            Ready::Device => {
                let outcome = self.drain_device(now);
                let r = match outcome {
                    DeviceDrain::Idle | DeviceDrain::Disconnected => Served::Continue,
                    DeviceDrain::SetRate(rate) => Served::SetRate(rate),
                    DeviceDrain::Fatal => Served::Stop,
                };
                assert(v0.device_drained(now, self@, outcome) && r == served_after(outcome));
                r
            },
        }
    }

    /// Hands `pkt` to the device's queue; `false` when there is no device
    /// or its queue did not take the packet.
    fn send_to_device(&mut self, pkt: Packet) -> (sent: bool)
        requires
            old(self).wf(),
        ensures
            final(self).wf(),
            final(self).deadline_index() == old(self).deadline_index(),
            final(self)@ == old(self)@.offer(pkt@),
            sent ==> old(self)@.device is Some,
    {
        let ghost pv = pkt@;
        let sent = match &self.device {
            Some(dev) => Some(dev.send(pkt)),
            None => None,
        };
        match sent {
            Some(sent) => {
                self.offered = Ghost(self.offered@.push(pv));
                sent
            },
            None => false,
        }
    }
}

} // verus!
