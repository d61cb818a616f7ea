//! The packet model: what travels between clients, the proxy and the devices.

use crate::route::DeviceRoute;
use vstd::prelude::*;

verus! {

/// Status code carried by an RPC error.
#[derive(Clone, Copy, Debug, PartialEq, Eq)]
pub enum RpcErrorCode {
    NoError,
    Undefined,
    NotFound,
    MalformedId,
    WrongSizeArgs,
    InvalidArgs,
    ReadOnly,
    WriteOnly,
    Timeout,
    Busy,
    WrongDeviceState,
    LoadFailed,
    LoadRpcFailed,
    SaveFailed,
    SaveWriteFailed,
    Internal,
    OutOfMemory,
    OutOfRange,
    Unknown(u16),
}

/// How a request names the procedure it calls.
#[derive(Debug, PartialEq, Eq)]
pub enum RpcMethod {
    Id(u16),
    Name(String),
}

pub enum RpcMethodView {
    Id(u16),
    Name(Seq<char>),
}

impl View for RpcMethod {
    type V = RpcMethodView;

    open spec fn view(&self) -> RpcMethodView {
        match self {
            RpcMethod::Id(id) => RpcMethodView::Id(*id),
            RpcMethod::Name(name) => RpcMethodView::Name(name@),
        }
    }
}

impl Clone for RpcMethod {
    fn clone(&self) -> (r: Self)
        ensures
            r@ == self@,
    {
        match self {
            RpcMethod::Id(id) => RpcMethod::Id(*id),
            RpcMethod::Name(name) => RpcMethod::Name(name.clone()),
        }
    }
}

#[derive(Debug, PartialEq, Eq)]
pub struct RpcRequestPayload {
    pub id: u16,
    pub method: RpcMethod,
    pub arg: Vec<u8>,
}

#[derive(Debug, PartialEq, Eq)]
pub struct RpcReplyPayload {
    pub id: u16,
    pub reply: Vec<u8>,
}

#[derive(Debug, PartialEq, Eq)]
pub struct RpcErrorPayload {
    pub id: u16,
    pub error: RpcErrorCode,
    pub extra: Vec<u8>,
}

/// A heartbeat either announces the session number of the device that sent
/// it, or carries bytes the proxy does not interpret.
#[derive(Debug, PartialEq, Eq)]
pub enum HeartbeatPayload {
    Session(u32),
    Any(Vec<u8>),
}

pub enum HeartbeatView {
    Session(u32),
    Any(Seq<u8>),
}

impl View for HeartbeatPayload {
    type V = HeartbeatView;

    open spec fn view(&self) -> HeartbeatView {
        match self {
            HeartbeatPayload::Session(s) => HeartbeatView::Session(*s),
            HeartbeatPayload::Any(bytes) => HeartbeatView::Any(bytes@),
        }
    }
}

#[derive(Debug, PartialEq, Eq)]
pub enum Payload {
    RpcRequest(RpcRequestPayload),
    RpcReply(RpcReplyPayload),
    RpcError(RpcErrorPayload),
    StreamData(Vec<u8>),
    Heartbeat(HeartbeatPayload),
    /// Any other packet type, kept as its raw bytes.
    Other(Vec<u8>),
}

pub enum PayloadView {
    RpcRequest { id: u16, method: RpcMethodView, arg: Seq<u8> },
    RpcReply { id: u16, reply: Seq<u8> },
    RpcError { id: u16, error: RpcErrorCode, extra: Seq<u8> },
    StreamData(Seq<u8>),
    Heartbeat(HeartbeatView),
    Other(Seq<u8>),
}

impl PayloadView {
    /// Requests, replies and errors: the packets that belong to an RPC.
    pub open spec fn is_rpc(self) -> bool {
        self is RpcRequest || self is RpcReply || self is RpcError
    }

    /// The same payload under another RPC id; payloads without an id are unchanged.
    pub open spec fn with_id(self, new_id: u16) -> PayloadView {
        match self {
            PayloadView::RpcRequest { id, method, arg } => PayloadView::RpcRequest {
                id: new_id,
                method,
                arg,
            },
            PayloadView::RpcReply { id, reply } => PayloadView::RpcReply { id: new_id, reply },
            PayloadView::RpcError { id, error, extra } => PayloadView::RpcError {
                id: new_id,
                error,
                extra,
            },
            other => other,
        }
    }
}

impl View for Payload {
    type V = PayloadView;

    open spec fn view(&self) -> PayloadView {
        match self {
            Payload::RpcRequest(req) => PayloadView::RpcRequest {
                id: req.id,
                method: req.method@,
                arg: req.arg@,
            },
            Payload::RpcReply(rep) => PayloadView::RpcReply { id: rep.id, reply: rep.reply@ },
            Payload::RpcError(err) => PayloadView::RpcError {
                id: err.id,
                error: err.error,
                extra: err.extra@,
            },
            Payload::StreamData(bytes) => PayloadView::StreamData(bytes@),
            Payload::Heartbeat(hb) => PayloadView::Heartbeat(hb@),
            Payload::Other(bytes) => PayloadView::Other(bytes@),
        }
    }
}

/// A byte-for-byte copy of `bytes`.
pub fn copy_bytes(bytes: &Vec<u8>) -> (r: Vec<u8>)
    ensures
        r@ == bytes@,
{
    let r = bytes.clone();
    assert(r@ =~= bytes@);
    r
}

impl Clone for Payload {
    fn clone(&self) -> (r: Self)
        ensures
            r@ == self@,
    {
        match self {
            Payload::RpcRequest(req) => Payload::RpcRequest(
                RpcRequestPayload {
                    id: req.id,
                    method: req.method.clone(),
                    arg: copy_bytes(&req.arg),
                },
            ),
            Payload::RpcReply(rep) => Payload::RpcReply(
                RpcReplyPayload { id: rep.id, reply: copy_bytes(&rep.reply) },
            ),
            Payload::RpcError(err) => Payload::RpcError(
                RpcErrorPayload { id: err.id, error: err.error, extra: copy_bytes(&err.extra) },
            ),
            Payload::StreamData(bytes) => Payload::StreamData(copy_bytes(bytes)),
            Payload::Heartbeat(HeartbeatPayload::Session(s)) => Payload::Heartbeat(
                HeartbeatPayload::Session(*s),
            ),
            Payload::Heartbeat(HeartbeatPayload::Any(bytes)) => Payload::Heartbeat(
                HeartbeatPayload::Any(copy_bytes(bytes)),
            ),
            Payload::Other(bytes) => Payload::Other(copy_bytes(bytes)),
        }
    }
}

/// One packet: a payload, the route of the device it concerns, and a hop budget.
#[derive(Debug, PartialEq, Eq)]
pub struct Packet {
    pub payload: Payload,
    pub routing: DeviceRoute,
    pub ttl: u8,
}

pub struct PacketView {
    pub payload: PayloadView,
    pub routing: Seq<u8>,
    pub ttl: u8,
}

impl View for Packet {
    type V = PacketView;

    open spec fn view(&self) -> PacketView {
        PacketView { payload: self.payload@, routing: self.routing@, ttl: self.ttl }
    }
}

impl Clone for Packet {
    fn clone(&self) -> (r: Self)
        ensures
            r@ == self@,
    {
        Packet { payload: self.payload.clone(), routing: self.routing.clone(), ttl: self.ttl }
    }
}

/// The error packet that answers request `id` with `error`, concerning the device at `routing`.
pub open spec fn rpc_error_packet(id: u16, error: RpcErrorCode, routing: Seq<u8>) -> PacketView {
    PacketView {
        payload: PayloadView::RpcError { id, error, extra: Seq::<u8>::empty() },
        routing,
        ttl: 0,
    }
}

/// What the framing layer reports when bytes arrive that do not form a packet.
#[derive(Clone, Copy, Debug, PartialEq, Eq)]
pub enum ProtocolError {
    /// A line of text where a packet was expected: the link carries bytes,
    /// the device speaks another protocol.
    Text,
    /// Anything else: a bad checksum, a bad length, an unknown type.
    Malformed,
}

/// Why the transport delivered no packet.
#[derive(Clone, Copy, Debug, PartialEq, Eq)]
pub enum RecvError {
    /// The bytes did not decode; the link itself is still up.
    Protocol(ProtocolError),
    /// The transport failed.
    Io,
}

} // verus!
