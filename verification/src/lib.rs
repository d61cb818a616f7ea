//! A multiplexing proxy for the TIO sensor bus: many client sessions share one
//! transport to a tree of devices, each with its own RPC id space.

pub mod channel;
pub mod client;
pub mod device;
pub mod event;
pub mod model;
pub mod port;
pub mod proto;
pub mod proxy;
pub mod rate;
pub mod remap;
pub mod route;
pub mod util;
pub mod wire;
