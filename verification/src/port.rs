//! The client's side of the proxy: how a session registers and gets the two
//! ends of its queues.

use crate::channel::{bounded, receiver_bound, receiver_capacity, send, sender_bound};
use crate::channel::sender_capacity;
use crate::client::{ClientView, ProxyClient, INBOUND_QUEUE_BOUND, OUTBOUND_QUEUE_BOUND};
use crate::event::Event;
use crate::proto::Packet;
use crate::model::ProxyView;
use crate::proxy::Proxy;
use crate::route::DeviceRoute;
use crossbeam::channel::{Receiver, Sender};
use vstd::prelude::*;

verus! {

/// The shortest RPC timeout a client may ask for: 100 ms.
pub const MIN_RPC_TIMEOUT: u64 = 100_000_000;

/// The longest RPC timeout a client may ask for: 60 s.
pub const MAX_RPC_TIMEOUT: u64 = 60_000_000_000;

/// The RPC timeout of a client that asks for none: 2 s.
pub const DEFAULT_RPC_TIMEOUT: u64 = 2_000_000_000;

/// How many clients may wait to be registered.
pub const NEW_CLIENT_QUEUE_BOUND: usize = 5;

/// Why a session could not be registered.
#[derive(Clone, Copy, Debug, PartialEq, Eq)]
pub enum PortError {
    /// The RPC timeout asked for is below the minimum.
    TimeoutTooShort,
    /// The RPC timeout asked for is above the maximum.
    TimeoutTooLong,
    /// The proxy has stopped and takes no more clients.
    ProxyGone,
}

impl PortError {
    /// Whether the caller asked for something that is never granted, as
    /// opposed to something that the proxy could not do this time.
    pub open spec fn invalid_input(self) -> bool {
        self is TimeoutTooShort || self is TimeoutTooLong
    }

    pub fn is_invalid_input(&self) -> (b: bool)
        ensures
            b == self.invalid_input(),
    {
        match self {
            PortError::TimeoutTooShort | PortError::TimeoutTooLong => true,
            PortError::ProxyGone => false,
        }
    }
}

/// The RPC timeout that a session gets which asks for `rpc_timeout`: the
/// default where it asks for none, and an error where it asks for one
/// outside the limits.
pub open spec fn checked_timeout(rpc_timeout: Option<u64>) -> Result<u64, PortError> {
    let t = match rpc_timeout {
        Some(t) => t,
        None => DEFAULT_RPC_TIMEOUT,
    };
    if t < MIN_RPC_TIMEOUT {
        Err(PortError::TimeoutTooShort)
    } else if t > MAX_RPC_TIMEOUT {
        Err(PortError::TimeoutTooLong)
    } else {
        Ok(t)
    }
}

pub fn check_rpc_timeout(rpc_timeout: Option<u64>) -> (r: Result<u64, PortError>)
    ensures
        r == checked_timeout(rpc_timeout),
{
    let t = match rpc_timeout {
        Some(t) => t,
        None => DEFAULT_RPC_TIMEOUT,
    };
    if t < MIN_RPC_TIMEOUT {
        return Err(PortError::TimeoutTooShort);
    }
    if t > MAX_RPC_TIMEOUT {
        return Err(PortError::TimeoutTooLong);
    }
    Ok(t)
}

/// The record of a session that asks for `rpc_timeout` and sees the
/// devices below `scope`: the proxy reaches the session through `tx` and
/// hears it through `rx`. A timeout outside the limits is refused.
pub fn client_record(
    rpc_timeout: Option<u64>,
    scope: DeviceRoute,
    forward_data: bool,
    forward_nonrpc: bool,
    tx: Sender<Packet>,
    rx: Receiver<Packet>,
) -> (r: Result<ProxyClient, PortError>)
    ensures
        match checked_timeout(rpc_timeout) {
            Ok(t) => r matches Ok(c) && c@ == (ClientView {
                rpc_timeout: t,
                scope: scope@,
                forward_data,
                forward_nonrpc,
            }) && c.outbound_queue() == tx && c.inbound_queue() == rx,
            Err(e) => r matches Err(x) && x == e,
        },
{
    match check_rpc_timeout(rpc_timeout) {
        Ok(t) => Ok(ProxyClient::new(tx, rx, t, scope, forward_data, forward_nonrpc)),
        Err(e) => Err(e),
    }
}

/// The four ends of the two queues of a session: the client's ends
/// first, then the proxy's.
pub struct SessionQueues {
    /// The client sends packets for the devices here.
    pub client_tx: Sender<Packet>,
    /// The client receives what the proxy forwards here.
    pub client_rx: Receiver<Packet>,
    /// The proxy puts packets for the client here.
    pub proxy_tx: Sender<Packet>,
    /// The proxy takes the client's packets from here.
    pub proxy_rx: Receiver<Packet>,
}

/// Makes the two queues of a session: the inbound one, from the client to
/// the proxy, and the outbound one. `None` if a queue did not come out
/// with the bound asked for, which crossbeam never does.
pub fn session_queues() -> (r: Option<SessionQueues>)
    ensures
        r matches Some(q) ==> sender_bound(q.client_tx) == Some(INBOUND_QUEUE_BOUND)
            && receiver_bound(q.client_rx) == Some(OUTBOUND_QUEUE_BOUND),
{
    let (client_tx, proxy_rx) = bounded::<Packet>(INBOUND_QUEUE_BOUND);
    let (proxy_tx, client_rx) = bounded::<Packet>(OUTBOUND_QUEUE_BOUND);
    let inbound = sender_capacity(&client_tx);
    let outbound = receiver_capacity(&client_rx);
    match (inbound, outbound) {
        (Some(i), Some(o)) => if i == INBOUND_QUEUE_BOUND && o == OUTBOUND_QUEUE_BOUND {
            Some(SessionQueues { client_tx, client_rx, proxy_tx, proxy_rx })
        } else {
            None
        },
        _ => None,
    }
}

/// A handle on a running proxy, through which sessions register.
pub struct Port {
    new_client_queue: Sender<ProxyClient>,
}

impl Port {
    /// A proxy without device and without clients, and the handle
    /// through which sessions register with it. Lost devices may be
    /// reopened for `reconnect_timeout`; reports go to `status_queue`.
    pub fn new(reconnect_timeout: Option<u64>, status_queue: Option<Sender<Event>>) -> (r: (
        Port,
        Proxy,
    ))
        ensures
            r.1.wf(),
            r.1@ == (ProxyView {
                reconnect_timeout,
                device: None,
                device_timeout: 0,
                next_client_id: 1,
                clients: Map::empty(),
                doomed: Set::empty(),
                next_rpc_id: 0,
                rpc: Map::empty(),
                pending: Seq::empty(),
                offered: Seq::empty(),
            }),
    {
        let (sender, receiver) = bounded::<ProxyClient>(NEW_CLIENT_QUEUE_BOUND);
        let proxy = Proxy::new(reconnect_timeout, receiver, status_queue);
        (Port { new_client_queue: sender }, proxy)
    }

    /// Registers a session that sees the devices below `scope`, and hands
    /// out its two queue ends: one to send packets to the devices, one to
    /// receive what the proxy forwards.
    ///
    /// An RPC timeout outside the limits is refused before anything is
    /// made. Otherwise the session is registered unless the proxy has stopped.
    pub fn port(
        &self,
        rpc_timeout: Option<u64>,
        scope: DeviceRoute,
        forward_data: bool,
        forward_nonrpc: bool,
    ) -> (r: Result<(Sender<Packet>, Receiver<Packet>), PortError>)
        ensures
            match checked_timeout(rpc_timeout) {
                Ok(_) => r matches Err(e) ==> e == PortError::ProxyGone,
                Err(refusal) => r matches Err(e) && e == refusal,
            },
            r matches Ok((tx, rx)) ==> sender_bound(tx) == Some(INBOUND_QUEUE_BOUND)
                && receiver_bound(rx) == Some(OUTBOUND_QUEUE_BOUND),
    {
        match check_rpc_timeout(rpc_timeout) {
            Ok(_) => {},
            Err(e) => {
                return Err(e);
            },
        }
        let queues = match session_queues() {
            Some(queues) => queues,
            None => {
                return Err(PortError::ProxyGone);
            },
        };
        let SessionQueues { client_tx, client_rx, proxy_tx, proxy_rx } = queues;
        let client = match client_record(
            rpc_timeout,
            scope,
            forward_data,
            forward_nonrpc,
            proxy_tx,
            proxy_rx,
        ) {
            Ok(client) => client,
            Err(e) => {
                return Err(e);
            },
        };
        match send(&self.new_client_queue, client) {
            Ok(_) => Ok((client_tx, client_rx)),
            Err(_) => Err(PortError::ProxyGone),
        }
    }

    /// Registers a session that sees every device and every packet, with
    /// the default RPC timeout.
    pub fn full_port(&self) -> (r: Result<(Sender<Packet>, Receiver<Packet>), PortError>)
        ensures
            r matches Err(e) ==> e == PortError::ProxyGone,
            r matches Ok((tx, rx)) ==> sender_bound(tx) == Some(INBOUND_QUEUE_BOUND)
                && receiver_bound(rx) == Some(OUTBOUND_QUEUE_BOUND),
    {
        self.port(None, DeviceRoute::root(), true, true)
    }
}

/// A timeout is granted exactly when it lies within the limits, and then
/// it is granted as asked.
pub proof fn lemma_timeout_limits(t: u64)
    ensures
        checked_timeout(Some(t)) is Ok <==> MIN_RPC_TIMEOUT <= t <= MAX_RPC_TIMEOUT,
        checked_timeout(Some(t)) matches Ok(granted) ==> granted == t,
        checked_timeout(Some(t)) matches Err(e) ==> e.invalid_input(),
        checked_timeout(None) == Ok::<u64, PortError>(DEFAULT_RPC_TIMEOUT),
{
}

} // verus!
