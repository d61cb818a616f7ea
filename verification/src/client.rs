//! One client session as the proxy sees it: its scope, its forwarding
//! policy, and the two bounded queues that connect it to the proxy.

use crate::channel::{try_recv, try_send, TryRecvError, TrySendError};
use crate::proto::{Packet, PacketView, Payload, PayloadView};
use crate::route::{absolute_from, relative_to, DeviceRoute};
use crossbeam::channel::{Receiver, Sender};
use vstd::prelude::*;

verus! {

/// Bound of the queue from a client to the proxy.
pub const INBOUND_QUEUE_BOUND: usize = 32;

/// Bound of the queue from the proxy to a client; larger, so that a burst
/// of stream data does not stand in the way of RPC replies.
pub const OUTBOUND_QUEUE_BOUND: usize = 256;

/// The settings of a client: everything about it but its queues.
pub struct ClientView {
    pub rpc_timeout: u64,
    pub scope: Seq<u8>,
    pub forward_data: bool,
    pub forward_nonrpc: bool,
}

/// The forwarding policy: RPC traffic always passes, stream data and the
/// rest only where the client asked for them.
pub open spec fn admits(client: ClientView, payload: PayloadView) -> bool {
    match payload {
        PayloadView::RpcRequest { .. } => true,
        PayloadView::RpcReply { .. } => true,
        PayloadView::RpcError { .. } => true,
        PayloadView::StreamData(_) => client.forward_data,
        _ => client.forward_nonrpc,
    }
}

/// What `client` is sent for `pkt`, a packet with an absolute route: the
/// packet with its route made relative to the client's scope, or nothing
/// where the route lies outside the scope or the policy holds the packet back.
pub open spec fn outgoing(client: ClientView, pkt: PacketView) -> Option<PacketView> {
    match relative_to(client.scope, pkt.routing) {
        Some(rel) => if admits(client, pkt.payload) {
            Some(PacketView { payload: pkt.payload, routing: rel, ttl: pkt.ttl })
        } else {
            None
        },
        None => None,
    }
}

/// What the proxy makes of `pkt`, a packet that `client` sent: the packet
/// with its route made absolute.
pub open spec fn incoming(client: ClientView, pkt: PacketView) -> PacketView {
    PacketView {
        payload: pkt.payload,
        routing: absolute_from(client.scope, pkt.routing),
        ttl: pkt.ttl,
    }
}

/// The proxy's record of one client.
pub struct ProxyClient {
    tx: Sender<Packet>,
    rx: Receiver<Packet>,
    rpc_timeout: u64,
    scope: DeviceRoute,
    forward_data: bool,
    forward_nonrpc: bool,
}

impl View for ProxyClient {
    type V = ClientView;

    closed spec fn view(&self) -> ClientView {
        ClientView {
            rpc_timeout: self.rpc_timeout,
            scope: self.scope@,
            forward_data: self.forward_data,
            forward_nonrpc: self.forward_nonrpc,
        }
    }
}

impl ProxyClient {
    /// A record for a client that is reached through `tx` and heard through `rx`.
    pub fn new(
        tx: Sender<Packet>,
        rx: Receiver<Packet>,
        rpc_timeout: u64,
        scope: DeviceRoute,
        forward_data: bool,
        forward_nonrpc: bool,
    ) -> (c: ProxyClient)
        ensures
            c@ == (ClientView { rpc_timeout, scope: scope@, forward_data, forward_nonrpc }),
            c.outbound_queue() == tx,
            c.inbound_queue() == rx,
    {
        ProxyClient { tx, rx, rpc_timeout, scope, forward_data, forward_nonrpc }
    }

    /// How long the client waits for the answer to a request, in nanoseconds.
    pub fn rpc_timeout(&self) -> (t: u64)
        ensures
            t == self@.rpc_timeout,
    {
        self.rpc_timeout
    }

    pub fn scope(&self) -> (s: &DeviceRoute)
        ensures
            s@ == self@.scope,
    {
        &self.scope
    }

    /// The queue on which the client's packets arrive: the one that `recv` takes from.
    pub closed spec fn inbound_queue(&self) -> Receiver<Packet> {
        self.rx
    }

    /// The queue on which the client is sent packets: the one that `offer` puts them on.
    pub closed spec fn outbound_queue(&self) -> Sender<Packet> {
        self.tx
    }

    /// The client's inbound queue, for a selector to wait on.
    pub fn inbound(&self) -> (r: &Receiver<Packet>)
        ensures
            *r == self.inbound_queue(),
    {
        &self.rx
    }

    /// Whether the forwarding policy lets `payload` through to this client.
    pub fn admits(&self, payload: &Payload) -> (b: bool)
        ensures
            b == admits(self@, payload@),
    {
        match payload {
            Payload::RpcRequest(_) | Payload::RpcReply(_) | Payload::RpcError(_) => true,
            Payload::StreamData(_) => self.forward_data,
            _ => self.forward_nonrpc,
        }
    }

    /// The packet this client is sent for `pkt`, if any: scope filter first,
    /// forwarding policy second.
    pub fn scoped(&self, pkt: &Packet) -> (r: Option<Packet>)
        ensures
            match r {
                Some(p) => outgoing(self@, pkt@) == Some(p@),
                None => outgoing(self@, pkt@) is None,
            },
    {
        let scoped_route = match self.scope.relative_route(&pkt.routing) {
            Ok(r) => r,
            Err(_) => {
                return None;
            },
        };
        if !self.admits(&pkt.payload) {
            return None;
        }
        Some(Packet { payload: pkt.payload.clone(), routing: scoped_route, ttl: pkt.ttl })
    }

    /// Puts `pkt` on the client's outbound queue as it is, without waiting.
    pub fn offer(&self, pkt: Packet) -> (r: Result<(), TrySendError<Packet>>)
        ensures
            r matches Err(e) ==> e.message() == pkt,
    {
        try_send(&self.tx, pkt)
    }

    /// Sends `pkt`, a packet with an absolute route, to the client if its
    /// scope and policy admit it. A packet that is not admitted is dropped
    /// and counts as sent. A refusal is the queue's: it names the scoped
    /// packet that did not fit.
    pub fn send(&self, pkt: &Packet) -> (r: Result<(), TrySendError<Packet>>)
        ensures
            outgoing(self@, pkt@) is None ==> r is Ok,
            r matches Err(e) ==> outgoing(self@, pkt@) == Some(e.message()@),
    {
        match self.scoped(pkt) {
            Some(p) => self.offer(p),
            None => Ok(()),
        }
    }

    /// `pkt`, which the client sent with a route relative to its scope,
    /// with its route made absolute.
    pub fn absolutize(&self, pkt: Packet) -> (r: Packet)
        ensures
            r@ == incoming(self@, pkt@),
    {
        let routing = self.scope.absolute_route(&pkt.routing);
        Packet { payload: pkt.payload, routing, ttl: pkt.ttl }
    }

    /// Takes the next packet from the client's inbound queue, if one is
    /// waiting, and makes its route absolute: whatever the client sent, the
    /// route that comes out lies inside the client's scope.
    pub fn recv(&self) -> (r: Result<Packet, TryRecvError>)
        ensures
            r matches Ok(p) ==> relative_to(self@.scope, p@.routing) is Some,
    {
        match try_recv(&self.rx) {
            Ok(pkt) => {
                let ghost rel = pkt@.routing;
                let p = self.absolutize(pkt);
                proof {
                    crate::route::lemma_absolute_then_relative(self@.scope, rel);
                }
                Ok(p)
            },
            Err(e) => Err(e),
        }
    }
}

/// A packet whose absolute route is outside a client's scope is never sent to it.
pub proof fn lemma_outside_scope_is_dropped(client: ClientView, pkt: PacketView)
    requires
        !client.scope.is_prefix_of(pkt.routing),
    ensures
        outgoing(client, pkt) is None,
{
}

/// What a client is sent keeps payload and hop budget, and its route is
/// the absolute route seen from the client's scope.
pub proof fn lemma_outgoing_keeps_packet(client: ClientView, pkt: PacketView)
    ensures
        outgoing(client, pkt) matches Some(p) ==> p.payload == pkt.payload && p.ttl == pkt.ttl
            && absolute_from(client.scope, p.routing) == pkt.routing,
{
    crate::route::lemma_relative_then_absolute(client.scope, pkt.routing);
}

/// A packet that a client sent comes back to it unchanged, where its policy admits it.
pub proof fn lemma_incoming_then_outgoing(client: ClientView, pkt: PacketView)
    requires
        admits(client, pkt.payload),
    ensures
        outgoing(client, incoming(client, pkt)) == Some(pkt),
{
    crate::route::lemma_absolute_then_relative(client.scope, pkt.routing);
}

} // verus!
