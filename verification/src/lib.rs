//! The core of a device manager: the hub through which the apps of one
//! device talk to each other over long-lived connections.
//!
//! The library decides and never touches a socket. Its two servers,
//! [`device::DeviceManager`] for the message bus and [`serve::RpcServer`]
//! for the RPC protocol, take what a connection has read and hand back the
//! list of what is to be done: which envelope goes on whose write queue,
//! whose close signal is fired. [`frame`] is the wire format of both.

pub mod addr;
pub mod crawl;
pub mod device;
pub mod errors;
pub mod experimental_service;
pub mod fortune_service;
pub mod frame;
pub mod ident;
pub mod json;
pub mod message;
pub mod peers;
pub mod registration_service;
pub mod rpc;
pub mod search;
pub mod serve;
pub mod servers;
pub mod state;
pub mod tables;
pub mod text;
pub mod theorems;
pub mod words;
