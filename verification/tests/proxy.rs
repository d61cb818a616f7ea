use crossbeam::channel::{bounded, unbounded, Receiver, Sender};
use tio_proxy::channel::TryRecvError;
use tio_proxy::device::ProxyDevice;
use tio_proxy::event::{Effect, Event};
use tio_proxy::port::Port;
use tio_proxy::proto::{
    HeartbeatPayload, Packet, Payload, ProtocolError, RecvError, RpcErrorCode, RpcErrorPayload,
    RpcMethod, RpcReplyPayload, RpcRequestPayload,
};
use tio_proxy::model::{
    DeviceDrain, Iteration, Served, AUTONEG_WAIT, IDLE_WAIT, INTERNAL_RPC_TIMEOUT,
    NO_DATA_LIMIT, RECONNECT_RETRY_WAIT, TIMEOUT_SLACK,
};
use tio_proxy::proxy::{add_span, parse_rate, ready_source, Outbound, Proxy, Ready};
use tio_proxy::rate::{RateChange, RateInfo};
use tio_proxy::remap::RpcMapEntry;
use tio_proxy::route::DeviceRoute;
use tio_proxy::util::PacketBuilder;

const MS: u64 = 1_000_000;
const SEC: u64 = 1_000_000_000;
const RATES: RateInfo = RateInfo { default_bps: 115200, target_bps: 250000 };

fn route(hops: &[u8]) -> DeviceRoute {
    DeviceRoute::from_hops(hops.to_vec())
}

fn request(id: u16, hops: &[u8]) -> Packet {
    PacketBuilder::make_rpc_request("dev.name", &[1], id, route(hops))
}

fn reply(id: u16, hops: &[u8], body: &[u8]) -> Packet {
    Packet {
        payload: Payload::RpcReply(RpcReplyPayload { id, reply: body.to_vec() }),
        routing: route(hops),
        ttl: 0,
    }
}

fn error(id: u16, hops: &[u8], code: RpcErrorCode) -> Packet {
    PacketBuilder::make_rpc_error(id, code, route(hops))
}

fn stream(hops: &[u8]) -> Packet {
    Packet { payload: Payload::StreamData(vec![1, 2, 3]), routing: route(hops), ttl: 4 }
}

fn session(s: u32) -> Packet {
    Packet {
        payload: Payload::Heartbeat(HeartbeatPayload::Session(s)),
        routing: DeviceRoute::root(),
        ttl: 0,
    }
}

struct Rig {
    proxy: Proxy,
    port: Port,
    reports: Receiver<Event>,
    wire_out: Receiver<Packet>,
    wire_in: Sender<Result<Packet, RecvError>>,
}

fn rig_with(rates: Option<RateInfo>, reconnect: Option<u64>, device_bound: usize) -> Rig {
    let (status, reports) = unbounded();
    let (port, mut proxy) = Port::new(reconnect, Some(status));
    let (to_device, wire_out) = bounded(device_bound);
    let (wire_in, from_device) = unbounded();
    assert!(proxy.start(Some(ProxyDevice::new(to_device, from_device, rates, 0)), 0));
    proxy.flush();
    assert_eq!(reports.try_recv(), Ok(Event::SensorConnected));
    Rig { proxy, port, reports, wire_out, wire_in }
}

fn rig() -> Rig {
    rig_with(None, None, 16)
}

fn join(
    rig: &mut Rig,
    timeout: u64,
    scope: &[u8],
    forward_data: bool,
    forward_nonrpc: bool,
) -> (u64, Sender<Packet>, Receiver<Packet>) {
    let (tx, rx) = rig.port.port(Some(timeout), route(scope), forward_data, forward_nonrpc).unwrap();
    let before = rig.proxy.client_ids().len();
    assert!(rig.proxy.accept_clients());
    rig.proxy.flush();
    let id = match rig.reports.try_recv() {
        Ok(Event::NewClient(id)) => id,
        other => panic!("no client was registered: {:?}", other),
    };
    assert_eq!(rig.proxy.client_ids().len(), before + 1);
    (id, tx, rx)
}

// Serves the ready queue and sends what was decided.
fn serve(proxy: &mut Proxy, ready: Ready, now: u64) -> Served {
    let served = proxy.serve(ready, now);
    proxy.flush();
    served
}

fn reports(rig: &Rig) -> Vec<Event> {
    let mut out = Vec::new();
    while let Ok(e) = rig.reports.try_recv() {
        out.push(e);
    }
    out
}

fn rate_of(rig: &Rig) -> RateChange {
    rig.proxy.device().unwrap().rate_change_state()
}

// Brings the handshake to the point where the device's rate is awaited,
// and gives the wire id of the query.
fn query_rate(rig: &mut Rig, now: u64) -> u16 {
    rig.wire_in.send(Ok(session(42))).unwrap();
    assert_eq!(rig.proxy.drain_device(now), DeviceDrain::Idle);
    assert_eq!(rate_of(rig), RateChange::QueryDeviceRate);
    let wire = rig.proxy.next_rpc_id();
    assert_eq!(rig.proxy.negotiate(now, IDLE_WAIT), (None, AUTONEG_WAIT));
    assert_eq!(rate_of(rig), RateChange::WaitingDeviceRate);
    rig.proxy.flush();
    wire
}

#[test]
fn a_new_proxy_has_nothing() {
    let (_port, proxy) = Port::new(Some(5 * SEC), None);
    assert!(!proxy.has_device());
    assert!(proxy.device().is_none());
    assert_eq!(proxy.client_ids(), Vec::<u64>::new());
    assert!(!proxy.has_client(0));
    assert!(!proxy.has_client(1));
    assert_eq!(proxy.next_rpc_id(), 0);
    assert!(proxy.rpc_table().is_empty());
    assert_eq!(proxy.pending(), &vec![]);
    assert_eq!(proxy.device_timeout(), 0);
}

#[test]
fn start_reports_whether_a_device_was_opened() {
    let (status, reports) = unbounded();
    let (_port, mut proxy) = Port::new(None, Some(status));
    assert!(!proxy.start(None, 5));
    assert_eq!(proxy.pending(), &vec![Effect::Emit(Event::FailedToConnect)]);
    proxy.flush();
    assert_eq!(proxy.pending(), &vec![]);
    assert_eq!(reports.try_recv(), Ok(Event::FailedToConnect));
    let (to_device, _wire_out) = bounded(1);
    let (_wire_in, from_device) = bounded(1);
    assert!(proxy.start(Some(ProxyDevice::new(to_device, from_device, None, 7)), 7));
    assert!(proxy.has_device());
    assert_eq!(proxy.device_timeout(), 7);
    proxy.flush();
    assert_eq!(reports.try_recv(), Ok(Event::SensorConnected));
    assert_eq!(reports.try_recv().ok(), None);
}

#[test]
fn clients_get_ids_from_one_upwards() {
    let mut rig = rig();
    let (a, _atx, _arx) = join(&mut rig, 2 * SEC, &[], true, true);
    let (b, _btx, _brx) = join(&mut rig, 2 * SEC, &[1], true, true);
    assert_eq!((a, b), (1, 2));
    assert!(rig.proxy.has_client(1));
    assert!(rig.proxy.has_client(2));
    assert!(!rig.proxy.has_client(0));
    assert!(!rig.proxy.has_client(3));
    let mut ids = rig.proxy.client_ids();
    ids.sort();
    assert_eq!(ids, vec![1, 2]);
}

#[test]
fn a_reply_goes_to_the_client_that_asked_under_its_own_id() {
    let mut rig = rig();
    let (a, atx, arx) = join(&mut rig, 2 * SEC, &[], true, true);
    let (_b, _btx, brx) = join(&mut rig, 2 * SEC, &[1], true, true);
    rig.proxy.handle_device_packet(request(0, &[9]));
    rig.proxy.flush();
    assert_eq!(arx.try_recv(), Ok(request(0, &[9])));

    atx.send(request(7, &[1, 3])).unwrap();
    assert!(!rig.proxy.drain_client(a, 10));
    rig.proxy.flush();
    // The device sees the request under a wire id of the proxy's choosing.
    let sent = rig.wire_out.try_recv().unwrap();
    let wire = match &sent.payload {
        Payload::RpcRequest(req) => req.id,
        other => panic!("not a request: {:?}", other),
    };
    assert_eq!(wire, 0);
    assert_eq!(sent, request(wire, &[1, 3]));
    assert_eq!(reports(&rig), vec![Event::RpcRemap((a, 7), wire)]);
    assert_eq!(
        rig.proxy.rpc_table().get(wire),
        Some(&RpcMapEntry { id: 7, client: a, route: route(&[1, 3]), timeout: 10 + 2 * SEC })
    );

    rig.wire_in.send(Ok(reply(wire, &[1, 3], &[8, 9]))).unwrap();
    assert_eq!(rig.proxy.drain_device(20), DeviceDrain::Idle);
    rig.proxy.flush();
    assert_eq!(reports(&rig), vec![Event::RpcRestore(wire, (a, 7))]);
    assert_eq!(arx.try_recv(), Ok(reply(7, &[1, 3], &[8, 9])));
    assert_eq!(arx.try_recv().ok(), None);
    assert_eq!(brx.try_recv().ok(), None);
    assert!(rig.proxy.rpc_table().is_empty());
}

#[test]
fn a_scoped_client_asks_and_hears_in_its_own_routes() {
    let mut rig = rig();
    let (_a, _atx, arx) = join(&mut rig, 2 * SEC, &[], true, true);
    let (b, btx, brx) = join(&mut rig, 2 * SEC, &[1], true, true);
    btx.send(request(7, &[3])).unwrap();
    assert!(!rig.proxy.drain_client(b, 0));
    assert_eq!(rig.wire_out.try_recv(), Ok(request(0, &[1, 3])));
    rig.wire_in.send(Ok(error(0, &[1, 3], RpcErrorCode::NotFound))).unwrap();
    assert_eq!(rig.proxy.drain_device(1), DeviceDrain::Idle);
    rig.proxy.flush();
    assert_eq!(brx.try_recv(), Ok(error(7, &[3], RpcErrorCode::NotFound)));
    assert_eq!(arx.try_recv().ok(), None);
}

#[test]
fn two_clients_may_use_the_same_id() {
    let mut rig = rig();
    let (a, atx, arx) = join(&mut rig, 2 * SEC, &[], true, true);
    let (b, btx, brx) = join(&mut rig, 2 * SEC, &[], true, true);
    atx.send(request(7, &[1])).unwrap();
    btx.send(request(7, &[2])).unwrap();
    rig.proxy.drain_client(a, 0);
    rig.proxy.drain_client(b, 0);
    assert_eq!(rig.wire_out.try_recv(), Ok(request(0, &[1])));
    assert_eq!(rig.wire_out.try_recv(), Ok(request(1, &[2])));
    // The device answers in the other order.
    rig.wire_in.send(Ok(reply(1, &[2], &[2]))).unwrap();
    rig.wire_in.send(Ok(reply(0, &[1], &[1]))).unwrap();
    assert_eq!(rig.proxy.drain_device(1), DeviceDrain::Idle);
    rig.proxy.flush();
    assert_eq!(arx.try_recv(), Ok(reply(7, &[1], &[1])));
    assert_eq!(brx.try_recv(), Ok(reply(7, &[2], &[2])));
    assert_eq!(arx.try_recv().ok(), None);
    assert_eq!(brx.try_recv().ok(), None);
}

#[test]
fn an_answer_is_passed_on_once() {
    let mut rig = rig();
    let (a, atx, arx) = join(&mut rig, 2 * SEC, &[], true, true);
    atx.send(request(7, &[1])).unwrap();
    rig.proxy.drain_client(a, 0);
    rig.proxy.flush();
    reports(&rig);
    rig.wire_in.send(Ok(reply(0, &[1], &[1]))).unwrap();
    rig.wire_in.send(Ok(reply(0, &[1], &[2]))).unwrap();
    rig.wire_in.send(Ok(error(0, &[1], RpcErrorCode::Busy))).unwrap();
    // Nobody asked under wire id 5.
    rig.wire_in.send(Ok(reply(5, &[1], &[3]))).unwrap();
    assert_eq!(rig.proxy.drain_device(1), DeviceDrain::Idle);
    rig.proxy.flush();
    assert_eq!(arx.try_recv(), Ok(reply(7, &[1], &[1])));
    assert_eq!(arx.try_recv().ok(), None);
    assert_eq!(reports(&rig), vec![Event::RpcRestore(0, (a, 7))]);
}

#[test]
fn rpc_restore_frees_the_wire_id() {
    let mut rig = rig();
    let (a, _atx, _arx) = join(&mut rig, 2 * SEC, &[], true, true);
    assert_eq!(rig.proxy.forward_to_device(request(7, &[1]), a, 0), Ok(()));
    rig.proxy.flush();
    assert_eq!(rig.proxy.rpc_restore(3), None);
    assert_eq!(rig.proxy.pending(), &vec![]);
    assert_eq!(rig.proxy.rpc_restore(0), Some((7, a)));
    assert_eq!(rig.proxy.pending(), &vec![Effect::Emit(Event::RpcRestore(0, (a, 7)))]);
    assert_eq!(rig.proxy.rpc_restore(0), None);
    assert!(rig.proxy.rpc_table().is_empty());
}

#[test]
fn an_expired_request_is_answered_with_timeout() {
    let mut rig = rig();
    let (a, atx, arx) = join(&mut rig, 100 * MS, &[], true, true);
    atx.send(request(1, &[2])).unwrap();
    rig.proxy.drain_client(a, 0);
    rig.proxy.flush();
    assert_eq!(reports(&rig), vec![Event::RpcRemap((a, 1), 0)]);
    // Nothing is due yet: sleep until the deadline and a little longer.
    assert_eq!(rig.proxy.process_rpc_timeouts(0), 101 * MS);
    assert_eq!(rig.proxy.process_rpc_timeouts(40 * MS), 61 * MS);
    assert_eq!(rig.proxy.process_rpc_timeouts(100 * MS - 1), 1 + MS);
    rig.proxy.flush();
    assert_eq!(arx.try_recv().ok(), None);
    assert_eq!(rig.proxy.process_rpc_timeouts(100 * MS), IDLE_WAIT);
    assert_eq!(
        rig.proxy.pending(),
        &vec![
            Effect::Emit(Event::RpcTimeout(0)),
            Effect::Deliver(a, error(1, &[2], RpcErrorCode::Timeout)),
        ]
    );
    rig.proxy.flush();
    assert_eq!(reports(&rig), vec![Event::RpcTimeout(0)]);
    assert_eq!(arx.try_recv(), Ok(error(1, &[2], RpcErrorCode::Timeout)));
    assert!(rig.proxy.rpc_table().is_empty());
    // The answer that comes too late is discarded.
    rig.wire_in.send(Ok(reply(0, &[2], &[]))).unwrap();
    assert_eq!(rig.proxy.drain_device(200 * MS), DeviceDrain::Idle);
    rig.proxy.flush();
    assert_eq!(arx.try_recv().ok(), None);
    assert_eq!(reports(&rig), vec![]);
}

#[test]
fn timeouts_are_dispatched_earliest_first() {
    let mut rig = rig();
    let (a, _atx, arx) = join(&mut rig, 3 * SEC, &[], true, true);
    let (b, _btx, brx) = join(&mut rig, SEC, &[4], true, true);
    assert_eq!(rig.proxy.forward_to_device(request(10, &[4, 1]), a, 0), Ok(()));
    assert_eq!(rig.proxy.forward_to_device(request(20, &[4, 2]), b, 0), Ok(()));
    assert_eq!(rig.proxy.forward_to_device(request(30, &[4, 3]), b, SEC), Ok(()));
    rig.proxy.flush();
    reports(&rig);
    rig.proxy.dispatch_rpc_timeouts(3 * SEC, RpcErrorCode::Busy);
    assert_eq!(
        rig.proxy.pending(),
        &vec![
            Effect::Emit(Event::RpcTimeout(1)),
            Effect::Deliver(b, error(20, &[2], RpcErrorCode::Busy)),
            Effect::Emit(Event::RpcTimeout(2)),
            Effect::Deliver(b, error(30, &[3], RpcErrorCode::Busy)),
            Effect::Emit(Event::RpcTimeout(0)),
            Effect::Deliver(a, error(10, &[4, 1], RpcErrorCode::Busy)),
        ]
    );
    rig.proxy.flush();
    assert_eq!(arx.try_recv(), Ok(error(10, &[4, 1], RpcErrorCode::Busy)));
    assert_eq!(brx.try_recv(), Ok(error(20, &[2], RpcErrorCode::Busy)));
    assert_eq!(brx.try_recv(), Ok(error(30, &[3], RpcErrorCode::Busy)));
}

#[test]
fn the_timeout_of_a_client_that_left_is_only_reported() {
    let mut rig = rig();
    let (a, atx, arx) = join(&mut rig, 100 * MS, &[], true, true);
    atx.send(request(1, &[2])).unwrap();
    drop(atx);
    assert!(rig.proxy.drain_client(a, 0));
    rig.proxy.drop_marked_clients();
    assert!(!rig.proxy.has_client(a));
    rig.proxy.flush();
    assert_eq!(
        reports(&rig),
        vec![Event::RpcRemap((a, 1), 0), Event::ClientTerminated(a)]
    );
    assert_eq!(rig.proxy.process_rpc_timeouts(SEC), IDLE_WAIT);
    assert_eq!(rig.proxy.pending(), &vec![Effect::Emit(Event::RpcTimeout(0))]);
    rig.proxy.flush();
    assert_eq!(arx.try_recv().ok(), None);
}

#[test]
fn a_lost_device_cancels_what_is_in_flight() {
    let mut rig = rig_with(None, Some(2 * SEC), 16);
    let (a, atx, arx) = join(&mut rig, 5 * SEC, &[1], true, true);
    atx.send(request(9, &[3])).unwrap();
    rig.proxy.drain_client(a, 0);
    rig.proxy.flush();
    reports(&rig);
    // The transport closes.
    let (closed, _) = unbounded();
    drop(std::mem::replace(&mut rig.wire_in, closed));
    assert_eq!(rig.proxy.drain_device(SEC), DeviceDrain::Disconnected);
    assert!(!rig.proxy.has_device());
    assert_eq!(rig.proxy.device_timeout(), 3 * SEC);
    rig.proxy.flush();
    assert_eq!(reports(&rig), vec![Event::SensorDisconnected]);
    // The next iteration finds the device missing.
    assert_eq!(rig.proxy.process_rpc_timeouts(SEC + 5 * MS), 5 * SEC - 5 * MS - SEC + MS);
    assert_eq!(rig.proxy.ensure_device(None, SEC + 5 * MS, 4 * SEC), Some(RECONNECT_RETRY_WAIT));
    rig.proxy.flush();
    assert_eq!(arx.try_recv(), Ok(error(9, &[3], RpcErrorCode::Undefined)));
    assert_eq!(reports(&rig), vec![Event::RpcTimeout(0)]);
    assert!(rig.proxy.rpc_table().is_empty());
}

#[test]
fn without_a_device_a_request_is_refused_and_other_packets_are_lost() {
    let mut rig = rig();
    let (a, atx, arx) = join(&mut rig, 5 * SEC, &[1], true, true);
    rig.proxy.device_lost(0);
    rig.proxy.flush();
    reports(&rig);
    atx.send(stream(&[2])).unwrap();
    atx.send(request(9, &[3])).unwrap();
    assert!(!rig.proxy.drain_client(a, 0));
    rig.proxy.flush();
    assert_eq!(arx.try_recv(), Ok(error(9, &[3], RpcErrorCode::Undefined)));
    assert_eq!(arx.try_recv().ok(), None);
    assert!(rig.proxy.rpc_table().is_empty());
    assert_eq!(rig.proxy.next_rpc_id(), 1);
    assert_eq!(reports(&rig), vec![Event::RpcRemap((a, 9), 0)]);
}

#[test]
fn a_full_device_queue_refuses_the_request() {
    let mut rig = rig_with(None, None, 1);
    let (a, _atx, _arx) = join(&mut rig, 5 * SEC, &[], true, true);
    assert_eq!(rig.proxy.forward_to_device(request(1, &[3]), a, 0), Ok(()));
    assert_eq!(
        rig.proxy.forward_to_device(request(2, &[3]), a, 0),
        Err(error(2, &[3], RpcErrorCode::Undefined))
    );
    assert_eq!(rig.proxy.forward_to_device(stream(&[3]), a, 0), Ok(()));
    assert_eq!(rig.proxy.rpc_table().len(), 1);
    assert!(rig.proxy.rpc_table().contains(0));
    assert!(!rig.proxy.rpc_table().contains(1));
    assert_eq!(rig.wire_out.try_recv(), Ok(request(0, &[3])));
    assert_eq!(rig.wire_out.try_recv().ok(), None);
}

#[test]
fn reconnecting_takes_the_new_device() {
    let mut rig = rig_with(None, Some(2 * SEC), 16);
    rig.proxy.device_lost(10 * SEC);
    assert_eq!(rig.proxy.device_timeout(), 12 * SEC);
    rig.proxy.flush();
    reports(&rig);
    assert_eq!(rig.proxy.ensure_device(None, 12 * SEC, 200 * MS), Some(200 * MS));
    assert_eq!(rig.proxy.ensure_device(None, 12 * SEC, IDLE_WAIT), Some(SEC));
    assert_eq!(rig.proxy.pending(), &vec![]);
    let (to_device, wire_out) = bounded(4);
    let (_wire_in, from_device) = bounded(4);
    let opened = ProxyDevice::new(to_device, from_device, Some(RATES), 12 * SEC);
    assert_eq!(rig.proxy.ensure_device(Some(opened), 12 * SEC + 1, IDLE_WAIT), Some(IDLE_WAIT));
    assert_eq!(rig.proxy.pending(), &vec![Effect::Emit(Event::SensorReconnected)]);
    assert!(rig.proxy.has_device());
    assert_eq!(rate_of(&rig), RateChange::WaitingForSession);
    assert_eq!(rig.proxy.forward_to_device(stream(&[1]), 0, 0), Ok(()));
    assert_eq!(wire_out.try_recv(), Ok(stream(&[1])));
}

#[test]
fn reconnecting_gives_up_when_the_time_has_run_out() {
    let mut rig = rig_with(None, Some(2 * SEC), 16);
    rig.proxy.device_lost(10 * SEC);
    rig.proxy.flush();
    reports(&rig);
    assert_eq!(rig.proxy.ensure_device(None, 12 * SEC + 1, IDLE_WAIT), None);
    rig.proxy.flush();
    assert_eq!(reports(&rig), vec![Event::FailedToReconnect]);
    // Without a reconnect timeout there is no second try at all.
    let mut rig = rig_with(None, None, 16);
    rig.proxy.device_lost(10 * SEC);
    assert_eq!(rig.proxy.device_timeout(), 10 * SEC);
    assert_eq!(rig.proxy.ensure_device(None, 10 * SEC, IDLE_WAIT), Some(SEC));
    assert_eq!(rig.proxy.ensure_device(None, 10 * SEC + 1, IDLE_WAIT), None);
}

#[test]
fn an_open_device_is_kept() {
    let mut rig = rig();
    let (to_device, _wire_out) = bounded(4);
    let (_wire_in, from_device) = bounded(4);
    let other = ProxyDevice::new(to_device, from_device, Some(RATES), 5);
    assert_eq!(rig.proxy.ensure_device(Some(other), 5, 7), Some(7));
    assert_eq!(rate_of(&rig), RateChange::DoNothing);
    assert!(rig.proxy.try_setup_device(None));
    assert_eq!(rig.proxy.pending(), &vec![]);
}

#[test]
fn the_wire_id_space_can_be_exhausted() {
    let mut rig = rig_with(None, None, 70000);
    let (a, _atx, _arx) = join(&mut rig, 60 * SEC, &[], true, true);
    for id in 0..=u16::MAX {
        assert_eq!(rig.proxy.forward_to_device(request(id ^ 0x5555, &[1]), a, 0), Ok(()));
    }
    assert_eq!(rig.proxy.rpc_table().len(), 65536);
    assert_eq!(rig.proxy.next_rpc_id(), 0);
    assert_eq!(
        rig.proxy.forward_to_device(request(77, &[1, 2]), a, 0),
        Err(error(77, &[1, 2], RpcErrorCode::OutOfMemory))
    );
    assert_eq!(rig.proxy.rpc_table().len(), 65536);
    assert_eq!(
        rig.proxy.rpc_table().get(0),
        Some(&RpcMapEntry { id: 0x5555, client: a, route: route(&[1]), timeout: 60 * SEC })
    );
    // The counter moved on all the same.
    assert_eq!(rig.proxy.next_rpc_id(), 1);
    // One answer frees one wire id, which the counter has to reach again.
    assert_eq!(rig.proxy.rpc_restore(1), Some((1 ^ 0x5555, a)));
    assert_eq!(rig.proxy.forward_to_device(request(78, &[1, 2]), a, 0), Ok(()));
    assert_eq!(rig.proxy.next_rpc_id(), 2);
    assert_eq!(rig.proxy.rpc_table().len(), 65536);
}

#[test]
fn remap_request_rewrites_only_requests() {
    let mut rig = rig();
    let (a, _atx, _arx) = join(&mut rig, 3 * SEC, &[], true, true);
    assert_eq!(rig.proxy.remap_request(stream(&[1]), a, 5), Outbound::Plain(stream(&[1])));
    assert_eq!(
        rig.proxy.remap_request(reply(3, &[1], &[]), a, 5),
        Outbound::Plain(reply(3, &[1], &[]))
    );
    assert_eq!(rig.proxy.next_rpc_id(), 0);
    let req = Packet {
        payload: Payload::RpcRequest(RpcRequestPayload {
            id: 40,
            method: RpcMethod::Id(12),
            arg: vec![5, 6],
        }),
        routing: route(&[2]),
        ttl: 3,
    };
    let rewritten = Packet {
        payload: Payload::RpcRequest(RpcRequestPayload {
            id: 0,
            method: RpcMethod::Id(12),
            arg: vec![5, 6],
        }),
        routing: route(&[2]),
        ttl: 3,
    };
    assert_eq!(
        rig.proxy.remap_request(req, a, 5),
        Outbound::Remapped(
            rewritten,
            0,
            RpcMapEntry { id: 40, client: a, route: route(&[2]), timeout: 5 + 3 * SEC }
        )
    );
    assert_eq!(rig.proxy.pending(), &vec![Effect::Emit(Event::RpcRemap((a, 40), 0))]);
    assert_eq!(rig.proxy.next_rpc_id(), 1);
    assert!(rig.proxy.rpc_table().is_empty());
}

#[test]
fn a_request_of_nobody_gets_the_internal_timeout() {
    let mut rig = rig();
    match rig.proxy.remap_request(request(1, &[]), 0, 7) {
        Outbound::Remapped(_, 0, entry) => {
            assert_eq!(entry.timeout, 7 + INTERNAL_RPC_TIMEOUT);
            assert_eq!(entry.client, 0);
        }
        other => panic!("not remapped: {:?}", other),
    }
    match rig.proxy.remap_request(request(1, &[]), 99, u64::MAX - 5) {
        Outbound::Remapped(_, 1, entry) => assert_eq!(entry.timeout, u64::MAX),
        other => panic!("not remapped: {:?}", other),
    }
}

#[test]
fn settle_forward_books_the_outcome() {
    let mut rig = rig();
    let entry = |id| RpcMapEntry { id, client: 1, route: route(&[2]), timeout: 9 };
    assert_eq!(
        rig.proxy.settle_forward(4, entry(40), false),
        Err(error(40, &[2], RpcErrorCode::Undefined))
    );
    assert!(rig.proxy.rpc_table().is_empty());
    assert_eq!(rig.proxy.settle_forward(4, entry(40), true), Ok(()));
    assert_eq!(rig.proxy.rpc_table().get(4), Some(&entry(40)));
    assert_eq!(
        rig.proxy.settle_forward(4, entry(41), true),
        Err(error(41, &[2], RpcErrorCode::OutOfMemory))
    );
    assert_eq!(rig.proxy.rpc_table().get(4), Some(&entry(40)));
    assert_eq!(rig.proxy.rpc_table().len(), 1);
}

#[test]
fn what_a_client_sent_before_it_left_is_forwarded() {
    let mut rig = rig();
    let (a, atx, _arx) = join(&mut rig, 2 * SEC, &[6], true, true);
    atx.send(stream(&[1])).unwrap();
    atx.send(request(5, &[2])).unwrap();
    atx.send(stream(&[3])).unwrap();
    drop(atx);
    assert!(rig.proxy.drain_client(a, 0));
    assert_eq!(rig.wire_out.try_recv(), Ok(stream(&[6, 1])));
    assert_eq!(rig.wire_out.try_recv(), Ok(request(0, &[6, 2])));
    assert_eq!(rig.wire_out.try_recv(), Ok(stream(&[6, 3])));
    assert_eq!(rig.wire_out.try_recv().ok(), None);
    // The client is still there until the marked clients are dropped.
    assert!(rig.proxy.has_client(a));
    rig.proxy.drop_marked_clients();
    assert!(!rig.proxy.has_client(a));
    rig.proxy.flush();
    assert_eq!(
        reports(&rig),
        vec![Event::RpcRemap((a, 5), 0), Event::ClientTerminated(a)]
    );
}

#[test]
fn draining_a_client_that_is_not_there_does_nothing() {
    let mut rig = rig();
    assert!(!rig.proxy.drain_client(5, 0));
    assert_eq!(rig.proxy.pending(), &vec![]);
}

#[test]
fn marked_clients_are_dropped_together() {
    let mut rig = rig();
    let (a, _atx, _arx) = join(&mut rig, 2 * SEC, &[], true, true);
    let (b, _btx, _brx) = join(&mut rig, 2 * SEC, &[], true, true);
    let (c, _ctx, _crx) = join(&mut rig, 2 * SEC, &[], true, true);
    rig.proxy.mark_client(a);
    rig.proxy.mark_client(c);
    rig.proxy.mark_client(a);
    assert_eq!(
        rig.proxy.pending(),
        &vec![
            Effect::Emit(Event::ClientTerminated(a)),
            Effect::Emit(Event::ClientTerminated(c)),
            Effect::Emit(Event::ClientTerminated(a)),
        ]
    );
    assert_eq!(rig.proxy.client_ids().len(), 3);
    rig.proxy.drop_marked_clients();
    assert_eq!(rig.proxy.client_ids(), vec![b]);
    rig.proxy.drop_marked_clients();
    assert_eq!(rig.proxy.client_ids(), vec![b]);
}

#[test]
fn other_packets_fan_out_by_scope_and_policy() {
    let mut rig = rig();
    let (_all, _t1, all) = join(&mut rig, 2 * SEC, &[], true, true);
    let (_data, _t2, data) = join(&mut rig, 2 * SEC, &[], true, false);
    let (_rest, _t3, rest) = join(&mut rig, 2 * SEC, &[], false, true);
    let (_none, _t4, none) = join(&mut rig, 2 * SEC, &[], false, false);
    let (_sub, _t5, sub) = join(&mut rig, 2 * SEC, &[1], true, true);
    rig.wire_in.send(Ok(stream(&[1, 2]))).unwrap();
    rig.wire_in.send(Ok(session(3))).unwrap();
    rig.wire_in.send(Ok(request(8, &[1]))).unwrap();
    rig.wire_in.send(Ok(stream(&[2]))).unwrap();
    assert_eq!(rig.proxy.drain_device(0), DeviceDrain::Idle);
    assert_eq!(rig.proxy.pending().len(), 3 + 2 + 5 + 2);
    rig.proxy.flush();
    let heard = |rx: &Receiver<Packet>| {
        let mut out = Vec::new();
        while let Ok(p) = rx.try_recv() {
            out.push(p);
        }
        out
    };
    assert_eq!(heard(&all), vec![stream(&[1, 2]), session(3), request(8, &[1]), stream(&[2])]);
    assert_eq!(heard(&data), vec![stream(&[1, 2]), request(8, &[1]), stream(&[2])]);
    assert_eq!(heard(&rest), vec![session(3), request(8, &[1])]);
    assert_eq!(heard(&none), vec![request(8, &[1])]);
    assert_eq!(heard(&sub), vec![stream(&[2]), request(8, &[])]);
    assert_eq!(reports(&rig), vec![]);
}

#[test]
fn a_full_outbound_queue_drops_for_that_client_only() {
    let (status, _reports) = unbounded();
    let (_port, mut proxy) = Port::new(None, Some(status));
    let client = |bound| {
        let (_to_proxy, from_client) = bounded::<Packet>(1);
        let (to_client, from_proxy) = bounded::<Packet>(bound);
        (
            tio_proxy::client::ProxyClient::new(
                to_client,
                from_client,
                2 * SEC,
                DeviceRoute::root(),
                true,
                true,
            ),
            from_proxy,
        )
    };
    let (small, small_rx) = client(1);
    let (large, large_rx) = client(8);
    assert_eq!(proxy.add_client(small), Some(1));
    assert_eq!(proxy.add_client(large), Some(2));
    for hop in 0..3u8 {
        proxy.handle_device_packet(stream(&[hop]));
    }
    proxy.flush();
    assert_eq!(small_rx.try_recv(), Ok(stream(&[0])));
    assert_eq!(small_rx.try_recv().ok(), None);
    assert_eq!(large_rx.try_recv(), Ok(stream(&[0])));
    assert_eq!(large_rx.try_recv(), Ok(stream(&[1])));
    assert_eq!(large_rx.try_recv(), Ok(stream(&[2])));
}

#[test]
fn receive_errors_are_reported_and_only_some_are_fatal() {
    let mut rig = rig();
    rig.wire_in.send(Err(RecvError::Protocol(ProtocolError::Malformed))).unwrap();
    rig.wire_in.send(Err(RecvError::Protocol(ProtocolError::Text))).unwrap();
    rig.wire_in.send(Err(RecvError::Io)).unwrap();
    rig.wire_in.send(Ok(stream(&[]))).unwrap();
    assert_eq!(rig.proxy.drain_device(0), DeviceDrain::Fatal);
    rig.proxy.flush();
    assert_eq!(
        reports(&rig),
        vec![
            Event::ProtocolError(ProtocolError::Malformed),
            Event::ProtocolError(ProtocolError::Text),
            Event::FatalError(RecvError::Io),
        ]
    );
    assert!(rig.proxy.has_device());
    assert_eq!(
        rig.proxy.handle_device_receipt(Err(RecvError::Protocol(ProtocolError::Text))),
        DeviceDrain::Idle
    );
    assert_eq!(rig.proxy.handle_device_receipt(Err(RecvError::Io)), DeviceDrain::Fatal);
    assert_eq!(rig.proxy.handle_device_receipt(Ok(stream(&[]))), DeviceDrain::Idle);
}

#[test]
fn draining_without_a_device_does_nothing() {
    let (_port, mut proxy) = Port::new(None, None);
    assert_eq!(proxy.drain_device(0), DeviceDrain::Idle);
    assert_eq!(proxy.pending(), &vec![]);
}

#[test]
fn the_queue_of_new_clients_closes_with_the_port() {
    let mut r = rig();
    let (tx, _rx) = r.port.full_port().unwrap();
    let Rig { mut proxy, port, reports, .. } = r;
    drop(port);
    // The client that registered before is still taken.
    assert!(!proxy.accept_clients());
    assert!(proxy.has_client(1));
    proxy.flush();
    assert_eq!(reports.try_recv(), Ok(Event::NewClient(1)));
    assert_eq!(reports.try_recv(), Ok(Event::Exiting));
    drop(tx);
}

#[test]
fn a_device_without_two_rates_never_negotiates() {
    let mut rig = rig();
    rig.wire_in.send(Ok(session(42))).unwrap();
    assert_eq!(rig.proxy.drain_device(0), DeviceDrain::Idle);
    assert_eq!(rate_of(&rig), RateChange::DoNothing);
    assert_eq!(rig.proxy.negotiate(5 * SEC, 3 * SEC), (None, 3 * SEC));
    assert_eq!(rig.proxy.autonegotiation(5 * SEC), None);
    assert_eq!(rig.proxy.pending(), &vec![]);
    assert_eq!(rig.wire_out.try_recv().ok(), None);
}

#[test]
fn the_handshake_waits_for_a_root_session() {
    let mut rig = rig_with(Some(RATES), None, 16);
    assert_eq!(rate_of(&rig), RateChange::WaitingForSession);
    assert_eq!(rig.proxy.negotiate(0, IDLE_WAIT), (None, AUTONEG_WAIT));
    assert_eq!(rig.proxy.negotiate(0, 50 * MS), (None, 50 * MS));
    assert_eq!(rig.wire_out.try_recv().ok(), None);
    rig.wire_in.send(Ok(session(42))).unwrap();
    rig.wire_in.send(Ok(session(43))).unwrap();
    assert_eq!(rig.proxy.drain_device(0), DeviceDrain::Idle);
    assert_eq!(rate_of(&rig), RateChange::QueryDeviceRate);
    assert_eq!(rig.proxy.device().unwrap().last_session(), 43);
    rig.proxy.flush();
    assert_eq!(reports(&rig), vec![]);
}

#[test]
fn a_compatible_rate_is_set() {
    let mut rig = rig_with(Some(RATES), None, 16);
    let wire = query_rate(&mut rig, 10);
    assert_eq!(
        rig.wire_out.try_recv(),
        Ok(PacketBuilder::make_rpc_request(
            "dev.port.rate.near",
            &[0x90, 0xd0, 0x03, 0x00],
            wire,
            DeviceRoute::root()
        ))
    );
    assert_eq!(
        rig.proxy.rpc_table().get(wire),
        Some(&RpcMapEntry { id: 0, client: 0, route: DeviceRoute::root(), timeout: 10 + SEC })
    );
    assert_eq!(
        reports(&rig),
        vec![Event::RpcRemap((0, 0), wire), Event::AutoRateQueried(250000)]
    );
    // The device offers 249000.
    rig.wire_in.send(Ok(reply(wire, &[], &[0xa8, 0xcc, 0x03, 0x00]))).unwrap();
    assert_eq!(rig.proxy.drain_device(20), DeviceDrain::Idle);
    assert_eq!(rate_of(&rig), RateChange::SetDeviceRate);
    rig.proxy.flush();
    assert_eq!(
        reports(&rig),
        vec![Event::RpcRestore(wire, (0, 0)), Event::AutoRateCompatible(249000)]
    );
    let wire = rig.proxy.next_rpc_id();
    assert_eq!(rig.proxy.negotiate(30, IDLE_WAIT), (None, AUTONEG_WAIT));
    assert_eq!(rate_of(&rig), RateChange::WaitingNewRate);
    assert_eq!(
        rig.wire_out.try_recv(),
        Ok(PacketBuilder::make_rpc_request(
            "dev.port.rate",
            &[0x90, 0xd0, 0x03, 0x00],
            wire,
            DeviceRoute::root()
        ))
    );
    rig.proxy.flush();
    assert_eq!(
        reports(&rig),
        vec![Event::RpcRemap((0, 0), wire), Event::AutoRateSet(250000)]
    );
    rig.wire_in.send(Ok(reply(wire, &[], &[]))).unwrap();
    rig.wire_in.send(Ok(stream(&[]))).unwrap();
    assert_eq!(rig.proxy.drain_device(40), DeviceDrain::SetRate(250000));
    assert_eq!(rate_of(&rig), RateChange::WaitingNewRate);
    rig.proxy.rate_set_result(true);
    assert_eq!(rate_of(&rig), RateChange::RateChanged);
    rig.proxy.flush();
    assert_eq!(
        reports(&rig),
        vec![Event::RpcRestore(wire, (0, 0)), Event::SetRate(250000)]
    );
    // What was queued behind the acknowledgement is still there.
    assert_eq!(rig.proxy.drain_device(50), DeviceDrain::Idle);
    assert_eq!(rig.proxy.device().unwrap().last_rx(), 50);
}

#[test]
fn an_incompatible_rate_ends_the_handshake() {
    let mut rig = rig_with(Some(RATES), None, 16);
    let wire = query_rate(&mut rig, 10);
    reports(&rig);
    rig.wire_in.send(Ok(reply(wire, &[], &[0x40, 0x0d, 0x03, 0x00]))).unwrap();
    assert_eq!(rig.proxy.drain_device(20), DeviceDrain::Idle);
    assert_eq!(rate_of(&rig), RateChange::GaveUp);
    rig.proxy.flush();
    assert_eq!(
        reports(&rig),
        vec![
            Event::RpcRestore(wire, (0, 0)),
            Event::AutoRateIncompatible(200000),
            Event::AutoRateGaveUp,
        ]
    );
    assert_eq!(rig.proxy.negotiate(30, 7), (None, 7));
    assert_eq!(rig.wire_out.try_recv().map(|p| p.routing), Ok(DeviceRoute::root()));
    assert_eq!(rig.wire_out.try_recv().ok(), None);
}

#[test]
fn a_rate_of_zero_or_a_short_reply_means_unsupported() {
    for body in [&[0u8, 0, 0, 0][..], &[1u8, 2][..], &[][..]] {
        let mut rig = rig_with(Some(RATES), None, 16);
        let wire = query_rate(&mut rig, 10);
        reports(&rig);
        assert_eq!(rig.proxy.handle_device_packet(reply(wire, &[], body)), None);
        assert_eq!(rate_of(&rig), RateChange::GaveUp);
        assert_eq!(
            rig.proxy.pending(),
            &vec![
                Effect::Emit(Event::RpcRestore(wire, (0, 0))),
                Effect::Emit(Event::AutoRateIncompatible(0)),
                Effect::Emit(Event::AutoRateGaveUp),
            ]
        );
    }
    assert_eq!(parse_rate(&vec![0xa8, 0xcc, 0x03, 0x00, 0xff]), 249000);
    assert_eq!(parse_rate(&vec![0xa8, 0xcc, 0x03]), 0);
}

#[test]
fn an_rpc_error_ends_the_handshake() {
    let mut rig = rig_with(Some(RATES), None, 16);
    let wire = query_rate(&mut rig, 10);
    reports(&rig);
    rig.wire_in.send(Ok(error(wire, &[], RpcErrorCode::NotFound))).unwrap();
    assert_eq!(rig.proxy.drain_device(20), DeviceDrain::Idle);
    assert_eq!(rate_of(&rig), RateChange::GaveUp);
    rig.proxy.flush();
    assert_eq!(
        reports(&rig),
        vec![
            Event::RpcRestore(wire, (0, 0)),
            Event::AutoRateRpcError(RpcErrorCode::NotFound),
            Event::AutoRateGaveUp,
        ]
    );
}

#[test]
fn a_new_session_restarts_a_handshake_that_gave_up() {
    let mut rig = rig_with(Some(RATES), None, 16);
    let wire = query_rate(&mut rig, 10);
    rig.proxy.handle_device_packet(error(wire, &[], RpcErrorCode::Busy));
    assert_eq!(rate_of(&rig), RateChange::GaveUp);
    // The same session again: the device did not restart.
    rig.wire_in.send(Ok(session(42))).unwrap();
    assert_eq!(rig.proxy.drain_device(20), DeviceDrain::Idle);
    assert_eq!(rate_of(&rig), RateChange::GaveUp);
    rig.wire_in.send(Ok(session(43))).unwrap();
    assert_eq!(rig.proxy.drain_device(30), DeviceDrain::Idle);
    assert_eq!(rate_of(&rig), RateChange::QueryDeviceRate);
}

#[test]
fn the_switch_waits_until_nothing_is_in_flight() {
    let mut rig = rig_with(Some(RATES), None, 16);
    let (a, _atx, _arx) = join(&mut rig, 2 * SEC, &[], true, true);
    let wire = query_rate(&mut rig, 10);
    assert_eq!(rig.proxy.forward_to_device(request(5, &[1]), a, 10), Ok(()));
    rig.proxy.handle_device_packet(reply(wire, &[], &[0x90, 0xd0, 0x03, 0x00]));
    assert_eq!(rate_of(&rig), RateChange::SetDeviceRate);
    rig.proxy.flush();
    reports(&rig);
    while rig.wire_out.try_recv().is_ok() {}
    assert_eq!(rig.proxy.autonegotiation(20), None);
    assert_eq!(rate_of(&rig), RateChange::SetDeviceRate);
    assert_eq!(rig.proxy.pending(), &vec![Effect::Emit(Event::AutoRateWait)]);
    assert_eq!(rig.wire_out.try_recv().ok(), None);
    rig.proxy.flush();
    assert_eq!(rig.proxy.rpc_restore(1), Some((5, a)));
    assert_eq!(rig.proxy.autonegotiation(30), None);
    assert_eq!(rate_of(&rig), RateChange::WaitingNewRate);
}

#[test]
fn a_failed_switch_ends_the_handshake() {
    let mut rig = rig_with(Some(RATES), None, 16);
    let wire = query_rate(&mut rig, 10);
    rig.proxy.handle_device_packet(reply(wire, &[], &[0x90, 0xd0, 0x03, 0x00]));
    rig.proxy.autonegotiation(20);
    rig.proxy.flush();
    reports(&rig);
    assert_eq!(
        rig.proxy.handle_device_packet(reply(1, &[], &[])),
        Some(250000)
    );
    rig.proxy.rate_set_result(false);
    assert_eq!(rate_of(&rig), RateChange::GaveUp);
    rig.proxy.flush();
    assert_eq!(
        reports(&rig),
        vec![Event::RpcRestore(1, (0, 0)), Event::SetRate(250000), Event::AutoRateGaveUp]
    );
    // Outside the switch, the outcome of setting a rate means nothing.
    rig.proxy.rate_set_result(true);
    assert_eq!(rate_of(&rig), RateChange::GaveUp);
    assert_eq!(rig.proxy.pending(), &vec![]);
}

#[test]
fn a_query_that_cannot_be_sent_is_tried_again() {
    let mut rig = rig_with(Some(RATES), None, 1);
    assert!(rig.proxy.device().unwrap().send(stream(&[])));
    rig.wire_in.send(Ok(session(42))).unwrap();
    rig.proxy.drain_device(0);
    assert_eq!(rig.proxy.autonegotiation(10), None);
    assert_eq!(rate_of(&rig), RateChange::QueryDeviceRate);
    assert!(rig.proxy.rpc_table().is_empty());
    assert_eq!(rig.proxy.pending(), &vec![Effect::Emit(Event::RpcRemap((0, 0), 0))]);
    assert_eq!(rig.wire_out.try_recv(), Ok(stream(&[])));
    assert_eq!(rig.proxy.autonegotiation(20), None);
    assert_eq!(rate_of(&rig), RateChange::WaitingDeviceRate);
    assert!(rig.proxy.rpc_table().contains(1));
}

#[test]
fn a_silent_link_goes_back_to_its_default_rate() {
    let mut rig = rig_with(Some(RATES), None, 16);
    let wire = query_rate(&mut rig, 10);
    rig.proxy.handle_device_packet(reply(wire, &[], &[0x90, 0xd0, 0x03, 0x00]));
    rig.proxy.autonegotiation(20);
    rig.proxy.handle_device_packet(reply(1, &[], &[]));
    rig.proxy.rate_set_result(true);
    rig.proxy.flush();
    reports(&rig);
    assert_eq!(rate_of(&rig), RateChange::RateChanged);
    let last_rx = rig.proxy.device().unwrap().last_rx();
    assert_eq!(last_rx, 10);
    assert_eq!(rig.proxy.negotiate(last_rx + NO_DATA_LIMIT, IDLE_WAIT), (None, AUTONEG_WAIT));
    assert_eq!(rate_of(&rig), RateChange::RateChanged);
    assert_eq!(
        rig.proxy.negotiate(last_rx + NO_DATA_LIMIT + 1, IDLE_WAIT),
        (Some(115200), AUTONEG_WAIT)
    );
    assert_eq!(rate_of(&rig), RateChange::GaveUp);
    rig.proxy.flush();
    assert_eq!(reports(&rig), vec![Event::NoData, Event::SetRate(115200)]);
    // A clock that runs backwards shows no silence.
    assert_eq!(rig.proxy.autonegotiation(0), None);
}

#[test]
fn internal_steps_without_a_device_only_report() {
    let (_port, mut proxy) = Port::new(None, None);
    assert_eq!(proxy.internal_rpc_reply(&RpcReplyPayload { id: 0, reply: vec![1, 0, 0, 0] }), None);
    assert_eq!(proxy.pending(), &vec![]);
    proxy.internal_rpc_error(&RpcErrorPayload {
        id: 0,
        error: RpcErrorCode::Timeout,
        extra: vec![],
    });
    assert_eq!(
        proxy.pending(),
        &vec![Effect::Emit(Event::AutoRateRpcError(RpcErrorCode::Timeout))]
    );
    assert_eq!(proxy.autonegotiation(5), None);
    assert_eq!(proxy.negotiate(5, 9), (None, 9));
    proxy.rate_set_result(true);
    assert!(!proxy.has_device());
}

#[test]
fn send_internal_rpc_uses_client_zero() {
    let mut rig = rig();
    assert_eq!(rig.proxy.send_internal_rpc(request(0, &[]), 5), Ok(()));
    assert_eq!(
        rig.proxy.rpc_table().get(0),
        Some(&RpcMapEntry { id: 0, client: 0, route: DeviceRoute::root(), timeout: 5 + SEC })
    );
    assert_eq!(rig.proxy.pending(), &vec![Effect::Emit(Event::RpcRemap((0, 0), 0))]);
}

#[test]
fn cancel_gives_up_everything() {
    let mut rig = rig();
    let (a, _atx, _arx) = join(&mut rig, 60 * SEC, &[], true, true);
    assert_eq!(rig.proxy.forward_to_device(request(1, &[1]), a, u64::MAX - SEC), Ok(()));
    assert_eq!(rig.proxy.forward_to_device(request(2, &[2]), a, 0), Ok(()));
    rig.proxy.flush();
    rig.proxy.cancel_active_rpcs();
    assert!(rig.proxy.rpc_table().is_empty());
    assert_eq!(
        rig.proxy.pending(),
        &vec![
            Effect::Emit(Event::RpcTimeout(1)),
            Effect::Deliver(a, error(2, &[2], RpcErrorCode::Undefined)),
            Effect::Emit(Event::RpcTimeout(0)),
            Effect::Deliver(a, error(1, &[1], RpcErrorCode::Undefined)),
        ]
    );
}

#[test]
fn add_span_stops_at_the_end_of_the_clock() {
    assert_eq!(add_span(5, 7), 12);
    assert_eq!(add_span(0, 0), 0);
    assert_eq!(add_span(u64::MAX - 7, 7), u64::MAX);
    assert_eq!(add_span(u64::MAX - 7, 8), u64::MAX);
    assert_eq!(add_span(u64::MAX, u64::MAX), u64::MAX);
    assert_eq!(TIMEOUT_SLACK, MS);
}

#[test]
fn wait_ready_names_the_queue_that_has_something() {
    let mut rig = rig();
    let (a, atx, _arx) = join(&mut rig, 2 * SEC, &[], true, true);
    let (b, btx, _brx) = join(&mut rig, 2 * SEC, &[], true, true);
    assert_eq!(rig.proxy.wait_ready(MS), Ready::Timeout);
    btx.send(stream(&[])).unwrap();
    assert_eq!(rig.proxy.wait_ready(SEC), Ready::Client(b));
    assert!(!rig.proxy.drain_client(b, 0));
    assert_eq!(rig.proxy.wait_ready(MS), Ready::Timeout);
    atx.send(stream(&[])).unwrap();
    assert_eq!(rig.proxy.wait_ready(SEC), Ready::Client(a));
    rig.proxy.drain_client(a, 0);
    rig.wire_in.send(Ok(stream(&[]))).unwrap();
    assert_eq!(rig.proxy.wait_ready(SEC), Ready::Device);
    rig.proxy.drain_device(0);
    let (_tx, _rx) = rig.port.full_port().unwrap();
    assert_eq!(rig.proxy.wait_ready(SEC), Ready::NewClient);
    assert!(rig.proxy.accept_clients());
    assert_eq!(rig.proxy.wait_ready(0), Ready::Timeout);
    // A closed queue counts as ready.
    drop(btx);
    assert_eq!(rig.proxy.wait_ready(SEC), Ready::Client(b));
    assert_eq!(rig.proxy.drain_client(b, 0), true);
    assert_eq!(TryRecvError::Empty, TryRecvError::Empty);
}

#[test]
fn a_round_sweeps_and_says_how_long_to_wait() {
    let mut rig = rig();
    let (a, atx, arx) = join(&mut rig, 100 * MS, &[], true, true);
    assert_eq!(
        rig.proxy.iteration(None, 0),
        Iteration::Wait { timeout: IDLE_WAIT, set_rate: None }
    );
    atx.send(request(1, &[2])).unwrap();
    assert_eq!(serve(&mut rig.proxy, Ready::Client(a), 10 * MS), Served::Continue);
    assert_eq!(rig.wire_out.try_recv(), Ok(request(0, &[2])));
    assert_eq!(
        rig.proxy.iteration(None, 20 * MS),
        Iteration::Wait { timeout: 91 * MS, set_rate: None }
    );
    assert_eq!(arx.try_recv().ok(), None);
    assert_eq!(
        rig.proxy.iteration(None, 110 * MS),
        Iteration::Wait { timeout: IDLE_WAIT, set_rate: None }
    );
    // The round sends what it decides.
    assert_eq!(rig.proxy.pending(), &vec![]);
    assert_eq!(arx.try_recv(), Ok(error(1, &[2], RpcErrorCode::Timeout)));
    assert_eq!(
        reports(&rig),
        vec![Event::RpcRemap((a, 1), 0), Event::RpcTimeout(0)]
    );
}

#[test]
fn a_round_reconnects_or_stops() {
    let mut rig = rig_with(None, Some(2 * SEC), 16);
    let (a, atx, arx) = join(&mut rig, 5 * SEC, &[], true, true);
    atx.send(request(1, &[2])).unwrap();
    assert_eq!(serve(&mut rig.proxy, Ready::Client(a), 0), Served::Continue);
    let (closed, _) = unbounded();
    drop(std::mem::replace(&mut rig.wire_in, closed));
    assert_eq!(serve(&mut rig.proxy, Ready::Device, SEC), Served::Continue);
    assert!(!rig.proxy.has_device());
    reports(&rig);
    assert_eq!(
        rig.proxy.iteration(None, SEC + 1),
        Iteration::Wait { timeout: SEC, set_rate: None }
    );
    // The request in flight went with the device.
    assert_eq!(arx.try_recv(), Ok(error(1, &[2], RpcErrorCode::Undefined)));
    assert_eq!(reports(&rig), vec![Event::RpcTimeout(0)]);
    assert_eq!(
        rig.proxy.iteration(None, 3 * SEC),
        Iteration::Wait { timeout: SEC, set_rate: None }
    );
    assert_eq!(rig.proxy.iteration(None, 3 * SEC + 1), Iteration::Stop);
    assert_eq!(reports(&rig), vec![Event::FailedToReconnect]);
    let (to_device, _wire_out) = bounded(4);
    let (_wire_in, from_device) = bounded(4);
    let opened = ProxyDevice::new(to_device, from_device, None, 4 * SEC);
    assert_eq!(
        rig.proxy.iteration(Some(opened), 4 * SEC),
        Iteration::Wait { timeout: IDLE_WAIT, set_rate: None }
    );
    assert_eq!(reports(&rig), vec![Event::SensorReconnected]);
}

#[test]
fn a_round_keeps_the_handshake_going_and_drops_clients() {
    let mut rig = rig_with(Some(RATES), None, 16);
    let (a, atx, _arx) = join(&mut rig, 5 * SEC, &[], true, true);
    drop(atx);
    assert_eq!(serve(&mut rig.proxy, Ready::Client(a), 0), Served::Continue);
    assert!(rig.proxy.has_client(a));
    rig.wire_in.send(Ok(session(1))).unwrap();
    assert_eq!(serve(&mut rig.proxy, Ready::Device, 0), Served::Continue);
    assert_eq!(
        rig.proxy.iteration(None, 5),
        Iteration::Wait { timeout: AUTONEG_WAIT, set_rate: None }
    );
    assert!(!rig.proxy.has_client(a));
    assert_eq!(rate_of(&rig), RateChange::WaitingDeviceRate);
    assert_eq!(
        reports(&rig),
        vec![
            Event::ClientTerminated(a),
            Event::RpcRemap((0, 0), 0),
            Event::AutoRateQueried(250000),
        ]
    );
    rig.wire_in.send(Ok(reply(0, &[], &[0x90, 0xd0, 0x03, 0x00]))).unwrap();
    assert_eq!(serve(&mut rig.proxy, Ready::Device, 6), Served::Continue);
    assert_eq!(
        rig.proxy.iteration(None, 7),
        Iteration::Wait { timeout: AUTONEG_WAIT, set_rate: None }
    );
    rig.wire_in.send(Ok(reply(1, &[], &[]))).unwrap();
    assert_eq!(serve(&mut rig.proxy, Ready::Device, 8), Served::SetRate(250000));
    rig.proxy.rate_set_result(true);
    assert_eq!(serve(&mut rig.proxy, Ready::Device, 9), Served::Continue);
    assert_eq!(rate_of(&rig), RateChange::RateChanged);
    // The query is given up after the internal timeout; the link stays silent.
    assert_eq!(
        rig.proxy.iteration(None, 8 + NO_DATA_LIMIT),
        Iteration::Wait { timeout: AUTONEG_WAIT, set_rate: None }
    );
    assert_eq!(
        rig.proxy.iteration(None, 9 + NO_DATA_LIMIT),
        Iteration::Wait { timeout: AUTONEG_WAIT, set_rate: Some(115200) }
    );
    rig.proxy.rate_set_result(true);
    assert_eq!(rate_of(&rig), RateChange::GaveUp);
}

#[test]
fn serving_stops_on_a_fatal_error_or_a_closed_port() {
    let mut r = rig();
    r.wire_in.send(Err(RecvError::Io)).unwrap();
    assert_eq!(serve(&mut r.proxy, Ready::Timeout, 0), Served::Continue);
    assert_eq!(serve(&mut r.proxy, Ready::Device, 0), Served::Stop);
    assert_eq!(reports(&r), vec![Event::FatalError(RecvError::Io)]);
    assert_eq!(serve(&mut r.proxy, Ready::NewClient, 0), Served::Continue);
    let Rig { mut proxy, port, reports, .. } = r;
    drop(port);
    assert_eq!(serve(&mut proxy, Ready::NewClient, 0), Served::Stop);
    assert_eq!(reports.try_recv(), Ok(Event::Exiting));
}

#[test]
fn the_selector_index_names_the_queue() {
    let ids = vec![7, 3, 9];
    assert_eq!(ready_source(&ids, None), Ready::Timeout);
    assert_eq!(ready_source(&ids, Some(0)), Ready::Client(7));
    assert_eq!(ready_source(&ids, Some(2)), Ready::Client(9));
    assert_eq!(ready_source(&ids, Some(3)), Ready::NewClient);
    assert_eq!(ready_source(&ids, Some(4)), Ready::Device);
    assert_eq!(ready_source(&vec![], Some(0)), Ready::NewClient);
    assert_eq!(ready_source(&vec![], Some(1)), Ready::Device);
}

#[test]
fn serve_leaves_what_it_decided_to_be_sent() {
    let mut rig = rig();
    rig.wire_in.send(Err(RecvError::Protocol(ProtocolError::Text))).unwrap();
    rig.wire_in.send(Err(RecvError::Io)).unwrap();
    assert_eq!(rig.proxy.serve(Ready::Device, 0), Served::Stop);
    assert_eq!(
        rig.proxy.pending(),
        &vec![
            Effect::Emit(Event::ProtocolError(ProtocolError::Text)),
            Effect::Emit(Event::FatalError(RecvError::Io)),
        ]
    );
    assert_eq!(rig.proxy.serve(Ready::Timeout, 0), Served::Continue);
    assert_eq!(rig.proxy.pending().len(), 2);
}

#[test]
fn a_round_sends_before_it_drops() {
    let mut rig = rig();
    let (a, atx, arx) = join(&mut rig, 100 * MS, &[], true, true);
    atx.send(request(1, &[2])).unwrap();
    drop(atx);
    // The client is marked while its request is in flight.
    assert_eq!(serve(&mut rig.proxy, Ready::Client(a), 0), Served::Continue);
    assert!(rig.proxy.has_client(a));
    // The round in which the request expires is the one that drops the client.
    assert_eq!(
        rig.proxy.iteration(None, 100 * MS),
        Iteration::Wait { timeout: IDLE_WAIT, set_rate: None }
    );
    assert!(!rig.proxy.has_client(a));
    assert_eq!(arx.try_recv(), Ok(error(1, &[2], RpcErrorCode::Timeout)));
}
