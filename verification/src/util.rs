//! Helpers to build the packets the proxy and its clients send most.

use crate::proto::{HeartbeatPayload, HeartbeatView, Packet, PacketView, Payload, PayloadView};
use crate::proto::{rpc_error_packet, RpcErrorCode, RpcErrorPayload, RpcMethod, RpcMethodView};
use crate::proto::RpcRequestPayload;
use crate::route::DeviceRoute;
use crate::wire::{i16_from_raw, i16_of, i16_raw, i16_to_raw, i32_from_raw, i32_of, i32_raw};
use crate::wire::{i32_to_raw, i64_from_raw, i64_of, i64_raw, i64_to_raw, i8_from_raw, i8_of};
use crate::wire::{i8_raw, i8_to_raw, read_u16, read_u32, read_u64, u16_from_le, u16_to_le};
use crate::wire::{u32_from_le, u32_to_le, u64_from_le, u64_to_le, write_u16, write_u32, write_u64};
use vstd::prelude::*;
use vstd::slice::{slice_subrange, slice_to_vec};
use vstd::string::StringSliceAdditionalSpecFns;
use vstd::utf8::{decode_utf8, valid_utf8};

verus! {

/// Where a proxy listens unless told otherwise.
pub fn default_proxy_url() -> (url: &'static str)
    ensures
        url@ == "tcp://localhost"@,
{
    "tcp://localhost"
}

/// The request that calls the procedure `name` with `arg`, under `id`, on the device at `routing`.
pub open spec fn rpc_request_packet(name: Seq<char>, arg: Seq<u8>, id: u16, routing: Seq<u8>) -> PacketView {
    PacketView {
        payload: PayloadView::RpcRequest { id, method: RpcMethodView::Name(name), arg },
        routing,
        ttl: 0,
    }
}

/// The heartbeat that carries `payload`, for the device at `routing`.
pub open spec fn heartbeat_packet(payload: Seq<u8>, routing: Seq<u8>) -> PacketView {
    PacketView { payload: PayloadView::Heartbeat(HeartbeatView::Any(payload)), routing, ttl: 0 }
}

/// Builds packets for one device.
pub struct PacketBuilder {
    routing: DeviceRoute,
}

impl View for PacketBuilder {
    type V = Seq<u8>;

    /// The route of the device that the packets are built for.
    closed spec fn view(&self) -> Seq<u8> {
        self.routing@
    }
}

impl PacketBuilder {
    pub fn new(routing: DeviceRoute) -> (b: PacketBuilder)
        ensures
            b@ == routing@,
    {
        PacketBuilder { routing }
    }

    pub fn make_rpc_request(name: &str, arg: &[u8], id: u16, routing: DeviceRoute) -> (pkt: Packet)
        ensures
            pkt@ == rpc_request_packet(name@, arg@, id, routing@),
    {
        Packet {
            payload: Payload::RpcRequest(
                RpcRequestPayload {
                    id: id,
                    method: RpcMethod::Name(name.to_owned()),
                    arg: slice_to_vec(arg),
                },
            ),
            routing: routing,
            ttl: 0,
        }
    }

    pub fn rpc_request(&self, name: &str, arg: &[u8], id: u16) -> (pkt: Packet)
        ensures
            pkt@ == rpc_request_packet(name@, arg@, id, self@),
    {
        Self::make_rpc_request(name, arg, id, self.routing.clone())
    }

    pub fn make_rpc_error(id: u16, error: RpcErrorCode, routing: DeviceRoute) -> (pkt: Packet)
        ensures
            pkt@ == rpc_error_packet(id, error, routing@),
    {
        Packet {
            payload: Payload::RpcError(RpcErrorPayload { id: id, error: error, extra: Vec::new() }),
            routing: routing,
            ttl: 0,
        }
    }

    pub fn rpc_error(&self, id: u16, error: RpcErrorCode) -> (pkt: Packet)
        ensures
            pkt@ == rpc_error_packet(id, error, self@),
    {
        Self::make_rpc_error(id, error, self.routing.clone())
    }

    /// A heartbeat of the root device.
    pub fn make_heartbeat(payload: Vec<u8>) -> (pkt: Packet)
        ensures
            pkt@ == heartbeat_packet(payload@, Seq::<u8>::empty()),
    {
        Packet {
            payload: Payload::Heartbeat(HeartbeatPayload::Any(payload)),
            routing: DeviceRoute::root(),
            ttl: 0,
        }
    }

    pub fn heartbeat(&self, payload: Vec<u8>) -> (pkt: Packet)
        ensures
            pkt@ == heartbeat_packet(payload@, self@),
    {
        let mut ret = Self::make_heartbeat(payload);
        ret.routing = self.routing.clone();
        ret
    }

    pub fn make_empty_heartbeat() -> (pkt: Packet)
        ensures
            pkt@ == heartbeat_packet(Seq::<u8>::empty(), Seq::<u8>::empty()),
    {
        PacketBuilder::make_heartbeat(Vec::new())
    }

    pub fn empty_heartbeat(&self) -> (pkt: Packet)
        ensures
            pkt@ == heartbeat_packet(Seq::<u8>::empty(), self@),
    {
        let mut ret = Self::make_empty_heartbeat();
        ret.routing = self.routing.clone();
        ret
    }
}

/// A value that can be the argument of an RPC.
pub trait TioRpcRequestable<T> {
    /// The bytes that carry the value on the wire.
    spec fn request_bytes(&self) -> Seq<u8>;

    fn to_request(&self) -> (r: Vec<u8>)
        ensures
            r@ == self.request_bytes(),
    ;
}

/// A value that can be read from the reply to an RPC.
pub trait TioRpcReplyable<T> {
    /// What is left of `reply` once a value was read from its front;
    /// `None` where `reply` does not start with a value.
    spec fn reply_rest(reply: Seq<u8>) -> Option<Seq<u8>>;

    /// Whether `value` is what the front of `reply` holds.
    spec fn is_reply_value(reply: Seq<u8>, value: T) -> bool;

    /// Reads a value from the front of `reply`, and hands it back with the rest.
    fn from_reply_prefix(reply: &[u8]) -> (r: Result<(T, &[u8]), ()>)
        ensures
            match r {
                Ok((value, rest)) => Self::reply_rest(reply@) == Some(rest@)
                    && Self::is_reply_value(reply@, value),
                Err(_) => Self::reply_rest(reply@) is None,
            },
    ;

    /// Reads a value from `reply`, which must hold it and nothing more.
    fn from_reply(reply: &[u8]) -> (r: Result<T, ()>)
        ensures
            match r {
                Ok(value) => Self::reply_rest(reply@) == Some(Seq::<u8>::empty())
                    && Self::is_reply_value(reply@, value),
                Err(_) => Self::reply_rest(reply@) != Some(Seq::<u8>::empty()),
            },
    {
        match Self::from_reply_prefix(reply) {
            Ok((ret, rest)) => {
                if rest.len() == 0 {
                    assert(rest@ =~= Seq::<u8>::empty());
                    Ok(ret)
                } else {
                    Err(())
                }
            },
            Err(e) => Err(e),
        }
    }
}

/// Marks the values whose wire form has the same length for every value,
/// so that another value can follow them in a reply.
pub trait TioRpcReplyableFixedSize {

}

/// What is left of `reply` after its first `n` bytes, if it has that many.
pub open spec fn rest_after(reply: Seq<u8>, n: nat) -> Option<Seq<u8>> {
    if reply.len() >= n {
        Some(reply.skip(n as int))
    } else {
        None
    }
}

/// Splits `reply` after its first `n` bytes, if it has that many.
pub fn split_reply(reply: &[u8], n: usize) -> (r: Option<(&[u8], &[u8])>)
    ensures
        match r {
            Some((front, rest)) => reply@.len() >= n && front@ == reply@.subrange(0, n as int)
                && rest@ == reply@.skip(n as int),
            None => reply@.len() < n,
        },
{
    if reply.len() < n {
        None
    } else {
        let front = slice_subrange(reply, 0, n);
        let rest = slice_subrange(reply, n, reply.len());
        assert(rest@ =~= reply@.skip(n as int));
        Some((front, rest))
    }
}

impl TioRpcRequestable<()> for () {
    open spec fn request_bytes(&self) -> Seq<u8> {
        Seq::empty()
    }

    fn to_request(&self) -> (r: Vec<u8>) {
        Vec::new()
    }
}

impl TioRpcReplyable<()> for () {
    open spec fn reply_rest(reply: Seq<u8>) -> Option<Seq<u8>> {
        Some(reply)
    }

    open spec fn is_reply_value(reply: Seq<u8>, value: ()) -> bool {
        true
    }

    fn from_reply_prefix(reply: &[u8]) -> (r: Result<((), &[u8]), ()>) {
        Ok(((), reply))
    }
}

impl TioRpcReplyableFixedSize for () {

}

impl TioRpcRequestable<u8> for u8 {
    open spec fn request_bytes(&self) -> Seq<u8> {
        seq![*self]
    }

    fn to_request(&self) -> (r: Vec<u8>) {
        let mut r: Vec<u8> = Vec::new();
        r.push(*self);
        assert(r@ =~= seq![*self]);
        r
    }
}

impl TioRpcReplyable<u8> for u8 {
    open spec fn reply_rest(reply: Seq<u8>) -> Option<Seq<u8>> {
        rest_after(reply, 1)
    }

    open spec fn is_reply_value(reply: Seq<u8>, value: u8) -> bool {
        reply.len() >= 1 && value == reply[0]
    }

    fn from_reply_prefix(reply: &[u8]) -> (r: Result<(u8, &[u8]), ()>) {
        match split_reply(reply, 1) {
            Some((front, rest)) => Ok((front[0], rest)),
            None => Err(()),
        }
    }
}

impl TioRpcReplyableFixedSize for u8 {

}

impl TioRpcRequestable<i8> for i8 {
    /// The byte of the two's complement of the value.
    open spec fn request_bytes(&self) -> Seq<u8> {
        seq![i8_raw(*self)]
    }

    fn to_request(&self) -> (r: Vec<u8>) {
        let mut r: Vec<u8> = Vec::new();
        r.push(i8_to_raw(*self));
        assert(r@ =~= seq![i8_raw(*self)]);
        r
    }
}

impl TioRpcReplyable<i8> for i8 {
    open spec fn reply_rest(reply: Seq<u8>) -> Option<Seq<u8>> {
        rest_after(reply, 1)
    }

    open spec fn is_reply_value(reply: Seq<u8>, value: i8) -> bool {
        reply.len() >= 1 && value == i8_of(reply[0])
    }

    fn from_reply_prefix(reply: &[u8]) -> (r: Result<(i8, &[u8]), ()>) {
        match split_reply(reply, 1) {
            Some((front, rest)) => Ok((i8_from_raw(front[0]), rest)),
            None => Err(()),
        }
    }
}

impl TioRpcReplyableFixedSize for i8 {

}

impl TioRpcRequestable<u16> for u16 {
    open spec fn request_bytes(&self) -> Seq<u8> {
        u16_to_le(*self)
    }

    fn to_request(&self) -> (r: Vec<u8>) {
        write_u16(*self)
    }
}

impl TioRpcReplyable<u16> for u16 {
    open spec fn reply_rest(reply: Seq<u8>) -> Option<Seq<u8>> {
        rest_after(reply, 2)
    }

    open spec fn is_reply_value(reply: Seq<u8>, value: u16) -> bool {
        reply.len() >= 2 && value == u16_from_le(reply)
    }

    fn from_reply_prefix(reply: &[u8]) -> (r: Result<(u16, &[u8]), ()>) {
        match split_reply(reply, 2) {
            Some((front, rest)) => Ok((read_u16(front), rest)),
            None => Err(()),
        }
    }
}

impl TioRpcReplyableFixedSize for u16 {

}

impl TioRpcRequestable<i16> for i16 {
    /// The bytes of the two's complement of the value.
    open spec fn request_bytes(&self) -> Seq<u8> {
        u16_to_le(i16_raw(*self))
    }

    fn to_request(&self) -> (r: Vec<u8>) {
        write_u16(i16_to_raw(*self))
    }
}

impl TioRpcReplyable<i16> for i16 {
    open spec fn reply_rest(reply: Seq<u8>) -> Option<Seq<u8>> {
        rest_after(reply, 2)
    }

    open spec fn is_reply_value(reply: Seq<u8>, value: i16) -> bool {
        reply.len() >= 2 && value == i16_of(u16_from_le(reply))
    }

    fn from_reply_prefix(reply: &[u8]) -> (r: Result<(i16, &[u8]), ()>) {
        match split_reply(reply, 2) {
            Some((front, rest)) => Ok((i16_from_raw(read_u16(front)), rest)),
            None => Err(()),
        }
    }
}

impl TioRpcReplyableFixedSize for i16 {

}

impl TioRpcRequestable<u32> for u32 {
    open spec fn request_bytes(&self) -> Seq<u8> {
        u32_to_le(*self)
    }

    fn to_request(&self) -> (r: Vec<u8>) {
        write_u32(*self)
    }
}

impl TioRpcReplyable<u32> for u32 {
    open spec fn reply_rest(reply: Seq<u8>) -> Option<Seq<u8>> {
        rest_after(reply, 4)
    }

    open spec fn is_reply_value(reply: Seq<u8>, value: u32) -> bool {
        reply.len() >= 4 && value == u32_from_le(reply)
    }

    fn from_reply_prefix(reply: &[u8]) -> (r: Result<(u32, &[u8]), ()>) {
        match split_reply(reply, 4) {
            Some((front, rest)) => Ok((read_u32(front), rest)),
            None => Err(()),
        }
    }
}

impl TioRpcReplyableFixedSize for u32 {

}

impl TioRpcRequestable<i32> for i32 {
    /// The bytes of the two's complement of the value.
    open spec fn request_bytes(&self) -> Seq<u8> {
        u32_to_le(i32_raw(*self))
    }

    fn to_request(&self) -> (r: Vec<u8>) {
        write_u32(i32_to_raw(*self))
    }
}

impl TioRpcReplyable<i32> for i32 {
    open spec fn reply_rest(reply: Seq<u8>) -> Option<Seq<u8>> {
        rest_after(reply, 4)
    }

    open spec fn is_reply_value(reply: Seq<u8>, value: i32) -> bool {
        reply.len() >= 4 && value == i32_of(u32_from_le(reply))
    }

    fn from_reply_prefix(reply: &[u8]) -> (r: Result<(i32, &[u8]), ()>) {
        match split_reply(reply, 4) {
            Some((front, rest)) => Ok((i32_from_raw(read_u32(front)), rest)),
            None => Err(()),
        }
    }
}

impl TioRpcReplyableFixedSize for i32 {

}

impl TioRpcRequestable<u64> for u64 {
    open spec fn request_bytes(&self) -> Seq<u8> {
        u64_to_le(*self)
    }

    fn to_request(&self) -> (r: Vec<u8>) {
        write_u64(*self)
    }
}

impl TioRpcReplyable<u64> for u64 {
    open spec fn reply_rest(reply: Seq<u8>) -> Option<Seq<u8>> {
        rest_after(reply, 8)
    }

    open spec fn is_reply_value(reply: Seq<u8>, value: u64) -> bool {
        reply.len() >= 8 && value == u64_from_le(reply)
    }

    fn from_reply_prefix(reply: &[u8]) -> (r: Result<(u64, &[u8]), ()>) {
        match split_reply(reply, 8) {
            Some((front, rest)) => Ok((read_u64(front), rest)),
            None => Err(()),
        }
    }
}

impl TioRpcReplyableFixedSize for u64 {

}

impl TioRpcRequestable<i64> for i64 {
    /// The bytes of the two's complement of the value.
    open spec fn request_bytes(&self) -> Seq<u8> {
        u64_to_le(i64_raw(*self))
    }

    fn to_request(&self) -> (r: Vec<u8>) {
        write_u64(i64_to_raw(*self))
    }
}

impl TioRpcReplyable<i64> for i64 {
    open spec fn reply_rest(reply: Seq<u8>) -> Option<Seq<u8>> {
        rest_after(reply, 8)
    }

    open spec fn is_reply_value(reply: Seq<u8>, value: i64) -> bool {
        reply.len() >= 8 && value == i64_of(u64_from_le(reply))
    }

    fn from_reply_prefix(reply: &[u8]) -> (r: Result<(i64, &[u8]), ()>) {
        match split_reply(reply, 8) {
            Some((front, rest)) => Ok((i64_from_raw(read_u64(front)), rest)),
            None => Err(()),
        }
    }
}

impl TioRpcReplyableFixedSize for i64 {

}

/// The text that `bytes` hold as UTF-8, with a replacement character for
/// each part that is no UTF-8.
pub uninterp spec fn utf8_lossy(bytes: Seq<u8>) -> Seq<char>;

/// `String::from_utf8_lossy`: the text that `bytes` hold, read leniently.
/// Bytes that are UTF-8 throughout come out as the text they encode.
#[verifier::external_body]
fn string_from_utf8_lossy(bytes: &[u8]) -> (s: String)
    ensures
        s@ == utf8_lossy(bytes@),
        valid_utf8(bytes@) ==> s@ == decode_utf8(bytes@),
{
    String::from_utf8_lossy(bytes).into_owned()
}

// &str only for requests
impl<'a> TioRpcRequestable<&'a str> for &'a str {
    open spec fn request_bytes(&self) -> Seq<u8> {
        vstd::utf8::encode_utf8(self@)
    }

    fn to_request(&self) -> (r: Vec<u8>) {
        slice_to_vec(self.as_bytes())
    }
}

// String for requests and replies, but not fixed size
impl TioRpcRequestable<String> for String {
    open spec fn request_bytes(&self) -> Seq<u8> {
        vstd::utf8::encode_utf8(self@)
    }

    fn to_request(&self) -> (r: Vec<u8>) {
        slice_to_vec(self.as_str().as_bytes())
    }
}

impl<'a> TioRpcRequestable<&'a String> for &'a String {
    open spec fn request_bytes(&self) -> Seq<u8> {
        vstd::utf8::encode_utf8(self@)
    }

    fn to_request(&self) -> (r: Vec<u8>) {
        slice_to_vec(self.as_str().as_bytes())
    }
}

impl TioRpcReplyable<String> for String {
    /// A string takes up all of the reply.
    open spec fn reply_rest(reply: Seq<u8>) -> Option<Seq<u8>> {
        Some(Seq::empty())
    }

    open spec fn is_reply_value(reply: Seq<u8>, value: String) -> bool {
        &&& value@ == utf8_lossy(reply)
        &&& valid_utf8(reply) ==> value@ == decode_utf8(reply)
    }

    fn from_reply_prefix(reply: &[u8]) -> (r: Result<(String, &[u8]), ()>) {
        let rest = slice_subrange(reply, 0, 0);
        assert(rest@ =~= Seq::<u8>::empty());
        Ok((string_from_utf8_lossy(reply), rest))
    }
}

impl<A: TioRpcRequestable<A>, B: TioRpcRequestable<B>> TioRpcRequestable<(A, B)> for (A, B) {
    open spec fn request_bytes(&self) -> Seq<u8> {
        self.0.request_bytes() + self.1.request_bytes()
    }

    fn to_request(&self) -> (r: Vec<u8>) {
        let mut ret = self.0.to_request();
        let mut second = self.1.to_request();
        ret.append(&mut second);
        ret
    }
}

impl<A: TioRpcReplyable<A> + TioRpcReplyableFixedSize, B: TioRpcReplyable<B>> TioRpcReplyable<
    (A, B),
> for (A, B) {
    open spec fn reply_rest(reply: Seq<u8>) -> Option<Seq<u8>> {
        match A::reply_rest(reply) {
            Some(mid) => B::reply_rest(mid),
            None => None,
        }
    }

    open spec fn is_reply_value(reply: Seq<u8>, value: (A, B)) -> bool {
        &&& A::is_reply_value(reply, value.0)
        &&& A::reply_rest(reply) matches Some(mid)
        &&& B::is_reply_value(mid, value.1)
    }

    fn from_reply_prefix(reply: &[u8]) -> (r: Result<((A, B), &[u8]), ()>) {
        let (first, rest) = match A::from_reply_prefix(reply) {
            Ok(found) => found,
            Err(e) => {
                return Err(e);
            },
        };
        let (second, rest) = match B::from_reply_prefix(rest) {
            Ok(found) => found,
            Err(e) => {
                return Err(e);
            },
        };
        Ok(((first, second), rest))
    }
}

impl<
    A: TioRpcReplyable<A> + TioRpcReplyableFixedSize,
    B: TioRpcReplyable<B> + TioRpcReplyableFixedSize,
> TioRpcReplyableFixedSize for (A, B) {

}

} // verus!
