//! What the proxy reports to its status sink, and what it queues for its clients.

use crate::proto::{Packet, PacketView, ProtocolError, RecvError, RpcErrorCode};
use vstd::prelude::*;

verus! {

/// A status report. Reports describe what the proxy did; none asks for an answer.
#[derive(Clone, Copy, Debug, PartialEq, Eq)]
pub enum Event {
    SensorConnected,
    SensorDisconnected,
    SensorReconnected,
    FailedToConnect,
    FailedToReconnect,
    Exiting,
    ProtocolError(ProtocolError),
    FatalError(RecvError),
    NewClient(u64),
    /// `RpcRemap((client, original_id), wire_id)`: a request went out under a wire id.
    RpcRemap((u64, u16), u16),
    /// `RpcRestore(wire_id, (client, original_id))`: an answer came back for a wire id.
    RpcRestore(u16, (u64, u16)),
    RpcTimeout(u16),
    ClientTerminated(u64),
    RootDeviceRestarted,
    AutoRateGaveUp,
    AutoRateQueried(u32),
    AutoRateRpcError(RpcErrorCode),
    AutoRateIncompatible(u32),
    AutoRateCompatible(u32),
    AutoRateWait,
    AutoRateSet(u32),
    SetRate(u32),
    SetRateFailed,
    NoData,
}

/// Something the proxy has decided to send and not sent yet.
#[derive(Debug, PartialEq, Eq)]
pub enum Effect {
    /// A report for the status sink.
    Emit(Event),
    /// A packet for the outbound queue of one client, its route already
    /// relative to that client's scope.
    Deliver(u64, Packet),
}

pub enum EffectView {
    Emit(Event),
    Deliver(u64, PacketView),
}

impl View for Effect {
    type V = EffectView;

    open spec fn view(&self) -> EffectView {
        match self {
            Effect::Emit(e) => EffectView::Emit(*e),
            Effect::Deliver(client, pkt) => EffectView::Deliver(*client, pkt@),
        }
    }
}

/// The views of a list of effects, in the same order.
pub open spec fn effect_views(effects: Seq<Effect>) -> Seq<EffectView> {
    effects.map_values(|e: Effect| e@)
}

} // verus!
