use tio_proxy::proto::{
    HeartbeatPayload, Packet, Payload, RpcErrorCode, RpcErrorPayload, RpcMethod, RpcRequestPayload,
};
use tio_proxy::route::DeviceRoute;
use tio_proxy::util::{
    default_proxy_url, split_reply, PacketBuilder, TioRpcReplyable, TioRpcRequestable,
};

fn route(hops: &[u8]) -> DeviceRoute {
    DeviceRoute::from_hops(hops.to_vec())
}

#[test]
fn default_url_is_local_tcp() {
    assert_eq!(default_proxy_url(), "tcp://localhost");
}

#[test]
fn make_rpc_request_builds_a_named_request() {
    let pkt = PacketBuilder::make_rpc_request("dev.name", &[1, 2, 3], 9, route(&[4]));
    assert_eq!(
        pkt,
        Packet {
            payload: Payload::RpcRequest(RpcRequestPayload {
                id: 9,
                method: RpcMethod::Name("dev.name".to_string()),
                arg: vec![1, 2, 3],
            }),
            routing: route(&[4]),
            ttl: 0,
        }
    );
}

#[test]
fn rpc_request_uses_the_builders_route() {
    let builder = PacketBuilder::new(route(&[2, 5]));
    assert_eq!(
        builder.rpc_request("rpc.list", &[], 3),
        PacketBuilder::make_rpc_request("rpc.list", &[], 3, route(&[2, 5]))
    );
}

#[test]
fn make_rpc_error_builds_an_error_without_extra() {
    let pkt = PacketBuilder::make_rpc_error(7, RpcErrorCode::Timeout, route(&[1, 3]));
    assert_eq!(
        pkt,
        Packet {
            payload: Payload::RpcError(RpcErrorPayload {
                id: 7,
                error: RpcErrorCode::Timeout,
                extra: vec![],
            }),
            routing: route(&[1, 3]),
            ttl: 0,
        }
    );
    assert_eq!(
        PacketBuilder::new(route(&[1, 3])).rpc_error(7, RpcErrorCode::Timeout),
        pkt
    );
}

#[test]
fn heartbeats_carry_their_payload() {
    assert_eq!(
        PacketBuilder::make_heartbeat(vec![1, 2]),
        Packet {
            payload: Payload::Heartbeat(HeartbeatPayload::Any(vec![1, 2])),
            routing: DeviceRoute::root(),
            ttl: 0,
        }
    );
    assert_eq!(
        PacketBuilder::new(route(&[6])).heartbeat(vec![1, 2]),
        Packet {
            payload: Payload::Heartbeat(HeartbeatPayload::Any(vec![1, 2])),
            routing: route(&[6]),
            ttl: 0,
        }
    );
    assert_eq!(PacketBuilder::make_empty_heartbeat(), PacketBuilder::make_heartbeat(vec![]));
    assert_eq!(
        PacketBuilder::new(route(&[6])).empty_heartbeat(),
        PacketBuilder::new(route(&[6])).heartbeat(vec![])
    );
}

#[test]
fn integers_are_sent_least_significant_byte_first() {
    assert_eq!(0x12u8.to_request(), vec![0x12]);
    assert_eq!((-2i8).to_request(), vec![0xfe]);
    assert_eq!(0x1234u16.to_request(), vec![0x34, 0x12]);
    assert_eq!((-2i16).to_request(), vec![0xfe, 0xff]);
    assert_eq!(250000u32.to_request(), vec![0x90, 0xd0, 0x03, 0x00]);
    assert_eq!((-1i32).to_request(), vec![0xff, 0xff, 0xff, 0xff]);
    assert_eq!(
        0x0102030405060708u64.to_request(),
        vec![8, 7, 6, 5, 4, 3, 2, 1]
    );
    assert_eq!((-2i64).to_request(), vec![0xfe, 0xff, 0xff, 0xff, 0xff, 0xff, 0xff, 0xff]);
    assert_eq!(().to_request(), Vec::<u8>::new());
}

#[test]
fn integers_are_read_from_the_front_of_a_reply() {
    assert_eq!(u8::from_reply_prefix(&[7, 8]), Ok((7u8, &[8u8][..])));
    assert_eq!(i8::from_reply_prefix(&[0xfe]), Ok((-2i8, &[][..])));
    assert_eq!(u16::from_reply_prefix(&[0x34, 0x12, 9]), Ok((0x1234u16, &[9u8][..])));
    assert_eq!(i16::from_reply_prefix(&[0xfe, 0xff]), Ok((-2i16, &[][..])));
    assert_eq!(
        u32::from_reply_prefix(&[0xa8, 0xcc, 0x03, 0x00, 1, 2]),
        Ok((249000u32, &[1u8, 2u8][..]))
    );
    assert_eq!(i32::from_reply_prefix(&[0xff, 0xff, 0xff, 0xff]), Ok((-1i32, &[][..])));
    assert_eq!(
        u64::from_reply_prefix(&[8, 7, 6, 5, 4, 3, 2, 1]),
        Ok((0x0102030405060708u64, &[][..]))
    );
    assert_eq!(
        i64::from_reply_prefix(&[0xfe, 0xff, 0xff, 0xff, 0xff, 0xff, 0xff, 0xff, 5]),
        Ok((-2i64, &[5u8][..]))
    );
    assert_eq!(<()>::from_reply_prefix(&[1, 2]), Ok(((), &[1u8, 2u8][..])));
}

#[test]
fn a_reply_that_is_too_short_is_refused() {
    assert_eq!(u8::from_reply_prefix(&[]), Err(()));
    assert_eq!(u16::from_reply_prefix(&[1]), Err(()));
    assert_eq!(i32::from_reply_prefix(&[1, 2, 3]), Err(()));
    assert_eq!(u64::from_reply_prefix(&[1, 2, 3, 4, 5, 6, 7]), Err(()));
    assert_eq!(u32::from_reply(&[1, 2, 3]), Err(()));
}

#[test]
fn from_reply_takes_the_whole_reply_or_nothing() {
    assert_eq!(u32::from_reply(&[0x90, 0xd0, 0x03, 0x00]), Ok(250000u32));
    assert_eq!(u32::from_reply(&[0x90, 0xd0, 0x03, 0x00, 0x00]), Err(()));
    assert_eq!(<()>::from_reply(&[]), Ok(()));
    assert_eq!(<()>::from_reply(&[0]), Err(()));
    assert_eq!(i16::from_reply(&[0xff, 0x7f]), Ok(i16::MAX));
}

#[test]
fn integers_survive_the_round_trip() {
    for x in [0u32, 1, 255, 256, 115200, 250000, u32::MAX] {
        assert_eq!(u32::from_reply(&x.to_request()), Ok(x));
    }
    for x in [i64::MIN, -1, 0, 1, i64::MAX] {
        assert_eq!(i64::from_reply(&x.to_request()), Ok(x));
    }
    for x in [i8::MIN, -1, 0, 1, i8::MAX] {
        assert_eq!(i8::from_reply(&x.to_request()), Ok(x));
    }
}

#[test]
fn strings_are_sent_as_their_bytes() {
    assert_eq!("abc".to_request(), vec![b'a', b'b', b'c']);
    assert_eq!("abc".to_string().to_request(), vec![b'a', b'b', b'c']);
    assert_eq!((&"h\u{e9}".to_string()).to_request(), vec![b'h', 0xc3, 0xa9]);
}

#[test]
fn a_string_takes_up_the_whole_reply() {
    assert_eq!(
        String::from_reply_prefix(b"sensor 1"),
        Ok(("sensor 1".to_string(), &[][..]))
    );
    assert_eq!(String::from_reply(b"sensor 1"), Ok("sensor 1".to_string()));
    assert_eq!(String::from_reply(&[]), Ok(String::new()));
    // Bytes that are no UTF-8 are replaced, not refused.
    assert_eq!(String::from_reply(&[b'a', 0xff, b'b']), Ok("a\u{fffd}b".to_string()));
}

#[test]
fn pairs_are_sent_and_read_one_after_the_other() {
    assert_eq!((1u8, 0x0203u16).to_request(), vec![1, 3, 2]);
    assert_eq!(
        <(u8, u16)>::from_reply_prefix(&[1, 3, 2, 9]),
        Ok(((1u8, 0x0203u16), &[9u8][..]))
    );
    assert_eq!(<(u8, u16)>::from_reply(&[1, 3, 2]), Ok((1u8, 0x0203u16)));
    assert_eq!(<(u8, u16)>::from_reply(&[1, 3]), Err(()));
    assert_eq!(<(u8, u16)>::from_reply(&[]), Err(()));
    assert_eq!(
        <(u16, String)>::from_reply(&[5, 0, b'o', b'k']),
        Ok((5u16, "ok".to_string()))
    );
    assert_eq!(
        <((u8, u8), u8)>::from_reply(&[1, 2, 3]),
        Ok(((1u8, 2u8), 3u8))
    );
}

#[test]
fn split_reply_cuts_after_the_given_length() {
    assert_eq!(split_reply(&[1, 2, 3], 2), Some((&[1u8, 2u8][..], &[3u8][..])));
    assert_eq!(split_reply(&[1, 2, 3], 3), Some((&[1u8, 2u8, 3u8][..], &[][..])));
    assert_eq!(split_reply(&[1, 2, 3], 0), Some((&[][..], &[1u8, 2u8, 3u8][..])));
    assert_eq!(split_reply(&[1, 2, 3], 4), None);
}
