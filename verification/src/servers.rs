use vstd::prelude::*;

use crate::addr::PeerAddr;
use crate::device::{Action, DeviceManager, RegistryError};
use crate::message::Message;

verus! {

/// What a connection hands to the server behind it: the envelopes it reads,
/// the envelopes it is about to write, and its own beginning and end.
pub trait BasicServer {
    /// Whether the server is in a state that its own functions leave it in.
    spec fn ready(&self) -> bool;

    /// Takes a request read from the connection at `addr`.
    fn handle_request(&mut self, msg: Message, addr: PeerAddr) -> (r: Vec<Action>)
        requires
            old(self).ready(),
        ensures
            final(self).ready(),
    ;

    /// Takes an envelope that is about to be written to the connection at
    /// `addr`, and gives the envelope to write.
    fn handle_response(&mut self, msg: Message, addr: PeerAddr) -> (r: Message)
        requires
            old(self).ready(),
        ensures
            final(self).ready(),
    ;

    /// Takes note of the connection from `addr`.
    fn add_connection(&mut self, addr: PeerAddr) -> (r: Result<(), RegistryError>)
        requires
            old(self).ready(),
        ensures
            final(self).ready(),
    ;

    /// Takes note that the connection from `addr` has ended.
    fn drop_connection(&mut self, addr: PeerAddr) -> (r: Vec<Action>)
        requires
            old(self).ready(),
        ensures
            final(self).ready(),
    ;
}

impl BasicServer for DeviceManager {
    open spec fn ready(&self) -> bool {
        self.wf()
    }

    fn handle_request(&mut self, msg: Message, addr: PeerAddr) -> (r: Vec<Action>)
        ensures
            exists|fresh: Seq<char>|
                fresh.len() == 36 && (final(self)@, r.deep_view()) == #[trigger] old(self)@.handle(
                    msg.deep_view(),
                    addr,
                    fresh,
                ),
    {
        DeviceManager::handle_request(self, msg, addr)
    }

    fn handle_response(&mut self, msg: Message, addr: PeerAddr) -> (r: Message)
        ensures
            r == msg,
            final(self)@ == old(self)@,
    {
        DeviceManager::handle_response(self, msg, addr)
    }

    fn add_connection(&mut self, addr: PeerAddr) -> (r: Result<(), RegistryError>)
        ensures
            final(self)@ == old(self)@.connected(addr),
            r is Err <==> old(self)@.contains(addr),
    {
        DeviceManager::add_connection(self, addr)
    }

    fn drop_connection(&mut self, addr: PeerAddr) -> (r: Vec<Action>)
        ensures
            final(self)@ == old(self)@.dropped(addr),
            r.deep_view() == old(self)@.drop_actions(addr),
    {
        DeviceManager::drop_connection(self, addr)
    }
}

/// The manager of the whole system of devices. It takes every envelope and
/// does nothing with it yet.
pub struct AiManager {}

impl AiManager {
    pub fn new() -> (r: AiManager) {
        AiManager {  }
    }
}

impl BasicServer for AiManager {
    open spec fn ready(&self) -> bool {
        true
    }

    fn handle_request(&mut self, msg: Message, addr: PeerAddr) -> (r: Vec<Action>)
        ensures
            r@.len() == 0,
    {
        Vec::new()
    }

    fn handle_response(&mut self, msg: Message, addr: PeerAddr) -> (r: Message)
        ensures
            r == msg,
    {
        msg
    }

    fn add_connection(&mut self, addr: PeerAddr) -> (r: Result<(), RegistryError>)
        ensures
            r is Ok,
    {
        Ok(())
    }

    fn drop_connection(&mut self, addr: PeerAddr) -> (r: Vec<Action>)
        ensures
            r@.len() == 0,
    {
        Vec::new()
    }
}

/// The side of a device that talks to the manager of the whole system. It
/// takes every envelope and does nothing with it yet.
pub struct AiClient {}

impl AiClient {
    pub fn new() -> (r: AiClient) {
        AiClient {  }
    }
}

impl BasicServer for AiClient {
    open spec fn ready(&self) -> bool {
        true
    }

    fn handle_request(&mut self, msg: Message, addr: PeerAddr) -> (r: Vec<Action>)
        ensures
            r@.len() == 0,
    {
        Vec::new()
    }

    fn handle_response(&mut self, msg: Message, addr: PeerAddr) -> (r: Message)
        ensures
            r == msg,
    {
        msg
    }

    fn add_connection(&mut self, addr: PeerAddr) -> (r: Result<(), RegistryError>)
        ensures
            r is Ok,
    {
        Ok(())
    }

    fn drop_connection(&mut self, addr: PeerAddr) -> (r: Vec<Action>)
        ensures
            r@.len() == 0,
    {
        Vec::new()
    }
}

} // verus!
