use device_manager::addr::{IpAddress, PeerAddr};
use device_manager::device::RegistryError;
use device_manager::errors::{
    ClientError, ClientErrorKind, Error, ErrorKind, RegistrationError, RegistrationErrorKind,
};
use device_manager::experimental_service::ExperimentalService;
use device_manager::fortune_service::{read_sign, FortuneService};
use device_manager::json::Json;
use device_manager::peers::PeerState;
use device_manager::registration_service::{read_app_handles, RegistrationService};
use device_manager::rpc::dispatch::{Dispatcher, Handle, LocalRpc};
use device_manager::rpc::service::{install, Registry, Service};
use device_manager::rpc::types::{ErrorMessage, Message};
use device_manager::serve::{RpcAction, RpcServer};
use device_manager::state::clients::{Client, ClientTracker, Departure, ExitCallback};
use device_manager::state::routing::{Continuation, InFlightMessage, MessageRouter};

fn peer(n: u32) -> PeerAddr {
    PeerAddr::v4(0x7f00_0001, 50000 + n as u16)
}

fn object(members: &[(&str, Json)]) -> Json {
    Json::Object(members.iter().map(|(k, v)| (k.to_string(), v.clone())).collect())
}

fn strings(texts: &[&str]) -> Json {
    Json::Array(texts.iter().map(|t| Json::Str(t.to_string())).collect())
}

fn call(id: &str, method: &str, args: Json) -> Message {
    Message { call: method.to_string(), args, resp: None, msg_id: id.to_string() }
}

fn report(error: &str, chain: &[&str]) -> Json {
    object(&[("error", Json::Str(error.to_string())), ("chain", strings(chain))])
}

fn server_with(peers: &[PeerAddr]) -> RpcServer {
    let mut server = RpcServer::new();
    for addr in peers {
        assert_eq!(server.connect(*addr), Ok(()));
    }
    server
}

fn register(server: &mut RpcServer, app: PeerAddr, id: &str, handles: &[&str]) -> Vec<RpcAction> {
    server.handle_message(call(id, "register_app", object(&[("handles", strings(handles))])), app)
}

#[test]
fn a_new_server_knows_the_linked_methods() {
    let server = RpcServer::new();
    assert_eq!(server.lookup("num_active_connections"), Some(Handle::Local(LocalRpc::NumActiveConnections)));
    assert_eq!(server.lookup("tell_fortune"), Some(Handle::Local(LocalRpc::TellFortune)));
    assert_eq!(server.lookup("fake_fortune"), Some(Handle::Local(LocalRpc::FakeFortune)));
    assert_eq!(server.lookup("deaf_fortune"), Some(Handle::Local(LocalRpc::DeafFortune)));
    assert_eq!(server.lookup("ask_for_more_wishes"), Some(Handle::Local(LocalRpc::AskForMoreWishes)));
    assert_eq!(server.lookup("register_app"), Some(Handle::Local(LocalRpc::RegisterApp)));
    assert_eq!(server.lookup("play"), None);
    assert_eq!(server.in_flight(), 0);
    assert!(!server.is_connected(peer(1)));
}

#[test]
fn connect_refuses_an_address_twice() {
    let mut server = server_with(&[peer(1)]);
    assert!(server.is_connected(peer(1)));
    assert_eq!(server.connect(peer(1)), Err(RegistryError::AddressInUse));
    assert_eq!(server.connect(peer(2)), Ok(()));
}

#[test]
fn rpc_forwarding_drop() {
    let s = peer(1);
    let c = peer(2);
    let mut server = server_with(&[s, c]);
    let sent = register(&mut server, s, "r1", &["play"]);
    assert_eq!(sent.len(), 1);
    match &sent[0] {
        RpcAction::Send { target, envelope } => {
            assert_eq!(*target, s);
            assert_eq!(envelope.msg_id, "r1");
            assert_eq!(envelope.resp, Some(object(&[("registered", strings(&["play"]))])));
        }
        other => panic!("unexpected action {:?}", other),
    }
    let request = call("r2", "play", object(&[("track", Json::Str("x".to_string()))]));
    let sent = server.handle_message(request.clone(), c);
    assert_eq!(sent, vec![RpcAction::Send { target: s, envelope: request.clone() }]);
    assert_eq!(server.in_flight(), 1);
    let sent = server.disconnect(s);
    assert_eq!(sent.len(), 2);
    assert_eq!(sent[0], RpcAction::Close { target: s });
    match &sent[1] {
        RpcAction::Send { target, envelope } => {
            assert_eq!(*target, c);
            assert_eq!(envelope.msg_id, "r2");
            assert_eq!(envelope.call, "play");
            assert_eq!(
                envelope.resp,
                Some(report("Server disconnected while handling request to r2", &[]))
            );
        }
        other => panic!("unexpected action {:?}", other),
    }
    assert_eq!(server.in_flight(), 0);
    assert!(!server.is_connected(s));
    assert_eq!(server.lookup("play"), None);
}

#[test]
fn a_forwarded_call_is_answered_once() {
    let s = peer(1);
    let c = peer(2);
    let mut server = server_with(&[s, c]);
    register(&mut server, s, "r1", &["play"]);
    let request = call("r2", "play", object(&[("track", Json::Str("x".to_string()))]));
    server.handle_message(request.clone(), c);
    let mut response = call("r2", "whatever", Json::Null);
    response.resp = Some(Json::Str("playing".to_string()));
    let sent = server.handle_message(response.clone(), s);
    let mut expected = request.clone();
    expected.resp = Some(Json::Str("playing".to_string()));
    assert_eq!(sent, vec![RpcAction::Send { target: c, envelope: expected }]);
    assert_eq!(server.in_flight(), 0);
    // A second response under the same id reaches nobody but its sender.
    let sent = server.handle_message(response.clone(), s);
    assert_eq!(sent.len(), 1);
    match &sent[0] {
        RpcAction::Send { target, envelope } => {
            assert_eq!(*target, s);
            assert_eq!(envelope.msg_id, "r2");
            assert_eq!(envelope.resp, Some(report("Received unexpected response to message r2", &[])));
        }
        other => panic!("unexpected action {:?}", other),
    }
}

#[test]
fn a_response_is_thrown_away_once_its_waiter_has_left() {
    let s = peer(1);
    let c = peer(2);
    let mut server = server_with(&[s, c]);
    register(&mut server, s, "r1", &["play"]);
    server.handle_message(call("r2", "play", Json::Null), c);
    assert_eq!(server.disconnect(c), vec![RpcAction::Close { target: c }]);
    assert_eq!(server.in_flight(), 1);
    let mut response = call("r2", "play", Json::Null);
    response.resp = Some(Json::Bool(true));
    assert!(server.handle_message(response, s).is_empty());
    assert_eq!(server.in_flight(), 0);
}

#[test]
fn disconnect_happens_once() {
    let s = peer(1);
    let mut server = server_with(&[s]);
    register(&mut server, s, "r1", &["play", "pause"]);
    assert_eq!(server.lookup("pause"), Some(Handle::Forward(s)));
    assert_eq!(server.disconnect(s), vec![RpcAction::Close { target: s }]);
    assert_eq!(server.lookup("play"), None);
    assert_eq!(server.lookup("pause"), None);
    assert!(server.disconnect(s).is_empty());
    assert!(server.disconnect(peer(9)).is_empty());
    assert_eq!(server.lookup("tell_fortune"), Some(Handle::Local(LocalRpc::TellFortune)));
}

#[test]
fn register_app_grants_the_free_names() {
    let s = peer(1);
    let t = peer(2);
    let c = peer(3);
    let mut server = server_with(&[s, t, c]);
    let sent = register(&mut server, s, "r1", &["play", "tell_fortune", "play", "pause"]);
    assert!(matches!(&sent[0], RpcAction::Send { target, envelope }
        if *target == s && envelope.resp == Some(object(&[("registered", strings(&["play", "pause"]))]))));
    let sent = register(&mut server, t, "r2", &["pause", "seek"]);
    assert!(matches!(&sent[0], RpcAction::Send { target, envelope }
        if *target == t && envelope.resp == Some(object(&[("registered", strings(&["seek"]))]))));
    assert_eq!(server.lookup("play"), Some(Handle::Forward(s)));
    assert_eq!(server.lookup("pause"), Some(Handle::Forward(s)));
    assert_eq!(server.lookup("seek"), Some(Handle::Forward(t)));
    assert_eq!(server.lookup("tell_fortune"), Some(Handle::Local(LocalRpc::TellFortune)));
    // A call by a third peer goes to the peer that registered the method.
    let request = call("r3", "pause", Json::Null);
    assert_eq!(
        server.handle_message(request.clone(), c),
        vec![RpcAction::Send { target: s, envelope: request }]
    );
    // Once that peer has left, the method is unknown; the other peer keeps its own.
    server.disconnect(s);
    let sent = server.handle_message(call("r4", "pause", Json::Null), c);
    assert_eq!(sent.len(), 2 - 1);
    match &sent[0] {
        RpcAction::Send { target, envelope } => {
            assert_eq!(*target, c);
            assert_eq!(envelope.msg_id, "r4");
            assert_eq!(envelope.resp, Some(report("invalid rpc error: rpc pause is not registered", &[])));
        }
        other => panic!("unexpected action {:?}", other),
    }
    assert_eq!(server.lookup("seek"), Some(Handle::Forward(t)));
}

#[test]
fn register_app_refuses_strangers_and_bad_arguments() {
    let mut server = server_with(&[peer(1)]);
    let sent = register(&mut server, PeerAddr::v4(0x0a00_0102, 6142), "r1", &["play"]);
    assert!(matches!(&sent[0], RpcAction::Send { envelope, .. }
        if envelope.resp == Some(report(
            "io error: No registered client for 10.0.1.2:6142",
            &["No registered client for 10.0.1.2:6142"]))));
    assert_eq!(server.lookup("play"), None);
    let cases = [
        (Json::Null, "invalid type: expected struct RegisterAppArgs"),
        (object(&[]), "missing field `handles`"),
        (object(&[("handles", Json::Str("play".to_string()))]), "invalid type: expected a sequence"),
        (object(&[("handles", Json::Array(vec![Json::Str("play".to_string()), Json::Null]))]), "invalid type: expected a string"),
    ];
    for (args, cause) in cases {
        let sent = server.handle_message(call("r1", "register_app", args), peer(1));
        assert_eq!(sent.len(), 1);
        assert!(matches!(&sent[0], RpcAction::Send { target, envelope }
            if *target == peer(1) && envelope.resp == Some(report(&format!("io error: {}", cause), &[cause]))));
    }
    assert_eq!(server.lookup("play"), None);
}

#[test]
fn a_call_of_an_unknown_method_is_refused() {
    let mut server = server_with(&[peer(1)]);
    let sent = server.handle_message(call("r1", "dance", Json::Null), peer(1));
    assert_eq!(sent.len(), 1);
    match &sent[0] {
        RpcAction::Send { target, envelope } => {
            assert_eq!(*target, peer(1));
            assert_eq!(envelope.msg_id, "r1");
            assert_eq!(envelope.call, "dance");
            assert_eq!(envelope.resp, Some(report("invalid rpc error: rpc dance is not registered", &[])));
        }
        other => panic!("unexpected action {:?}", other),
    }
}

#[test]
fn the_linked_methods_answer() {
    let mut server = server_with(&[peer(1)]);
    let leo = object(&[("sign", Json::Str("leo".to_string()))]);
    let sent = server.handle_message(call("f1", "tell_fortune", leo.clone()), peer(1));
    assert!(matches!(&sent[0], RpcAction::Send { target, envelope }
        if *target == peer(1) && envelope.msg_id == "f1"
            && envelope.resp == Some(object(&[("fortune", Json::Str("latin for lion".to_string()))]))));
    let virgo = object(&[("sign", Json::Str("virgo".to_string()))]);
    let sent = server.handle_message(call("f2", "tell_fortune", virgo), peer(1));
    assert!(matches!(&sent[0], RpcAction::Send { envelope, .. }
        if envelope.resp == Some(object(&[("fortune", Json::Str("Horoscope unimplemented for sign 'virgo'".to_string()))]))));
    let sent = server.handle_message(call("f3", "fake_fortune", Json::Null), peer(1));
    assert!(matches!(&sent[0], RpcAction::Send { envelope, .. }
        if envelope.resp == Some(object(&[("fortune", Json::Str("Bah".to_string()))]))));
    assert!(server.handle_message(call("f4", "deaf_fortune", leo), peer(1)).is_empty());
    assert!(server.handle_message(call("f5", "ask_for_more_wishes", Json::Null), peer(1)).is_empty());
    let sent = server.handle_message(call("f6", "num_active_connections", Json::Null), peer(1));
    assert!(matches!(&sent[0], RpcAction::Send { envelope, .. }
        if envelope.resp == Some(object(&[("registered", Json::Number("0".to_string()))]))));
    let sent = server.handle_message(call("f7", "deaf_fortune", object(&[])), peer(1));
    assert!(matches!(&sent[0], RpcAction::Send { envelope, .. }
        if envelope.resp == Some(report("io error: missing field `sign`", &["missing field `sign`"]))));
    let sent = server.handle_message(call("f8", "tell_fortune", strings(&["leo"])), peer(1));
    assert!(matches!(&sent[0], RpcAction::Send { envelope, .. }
        if envelope.resp == Some(report(
            "io error: invalid type: expected struct TellFortuneArgs",
            &["invalid type: expected struct TellFortuneArgs"]))));
    let sent = server.handle_message(call("f9", "tell_fortune", object(&[("sign", Json::Bool(true))])), peer(1));
    assert!(matches!(&sent[0], RpcAction::Send { envelope, .. }
        if envelope.resp == Some(report(
            "io error: invalid type: expected a string",
            &["invalid type: expected a string"]))));
}

#[test]
fn a_call_for_a_peer_that_is_gone_is_refused() {
    let mut dispatcher = Dispatcher::new();
    assert!(dispatcher.register("play", Handle::Forward(PeerAddr { ip: IpAddress::V6(1), port: 8080 })).is_none());
    assert_eq!(dispatcher.len(), 1);
    let found = dispatcher.dispatch(&call("r1", "play", Json::Null));
    assert_eq!(found, Ok(Handle::Forward(PeerAddr { ip: IpAddress::V6(1), port: 8080 })));
    let error = Error::unreachable("Receiving end for server ", PeerAddr { ip: IpAddress::V6(1), port: 8080 }, " dropped");
    assert_eq!(error.message(), "io error: Receiving end for server [0:0:0:0:0:0:0:1]:8080 dropped");
    assert_eq!(error.chain(), vec!["Receiving end for server [0:0:0:0:0:0:0:1]:8080 dropped".to_string()]);
}

#[test]
fn a_name_is_registered_once() {
    let mut dispatcher = Dispatcher::new();
    assert_eq!(dispatcher.register("play", Handle::Forward(peer(1))), None);
    let taken = dispatcher.register("play", Handle::Forward(peer(2))).expect("the name is taken");
    assert_eq!(taken, RegistrationError { inner: RegistrationErrorKind::HandleAlreadyMapped("play".to_string()) });
    assert_eq!(taken.message(), "Existing handle found for endpoint play");
    assert_eq!(dispatcher.lookup("play"), Some(Handle::Forward(peer(1))));
    assert_eq!(dispatcher.unregister("play"), Some(Handle::Forward(peer(1))));
    assert_eq!(dispatcher.unregister("play"), None);
    assert_eq!(dispatcher.lookup("play"), None);
    assert_eq!(dispatcher.register("play", Handle::Forward(peer(2))), None);
    assert_eq!(dispatcher.lookup("play"), Some(Handle::Forward(peer(2))));
    let missing = dispatcher.dispatch(&call("r1", "pause", Json::Null)).unwrap_err();
    assert_eq!(missing, Error { inner: ErrorKind::RpcError("pause".to_string()) });
}

#[test]
fn a_service_stops_at_the_first_name_that_is_taken() {
    let mut dispatcher = Dispatcher::new();
    dispatcher.register("deaf_fortune", Handle::Forward(peer(1)));
    let error = FortuneService::new().register_endpoints(&mut dispatcher).unwrap_err();
    assert_eq!(
        error.message(),
        "failed to register service FortuneService -> Existing handle found for endpoint deaf_fortune"
    );
    assert!(error.chain().is_empty());
    assert_eq!(dispatcher.lookup("tell_fortune"), Some(Handle::Local(LocalRpc::TellFortune)));
    assert_eq!(dispatcher.lookup("fake_fortune"), Some(Handle::Local(LocalRpc::FakeFortune)));
    assert_eq!(dispatcher.lookup("deaf_fortune"), Some(Handle::Forward(peer(1))));
    assert_eq!(dispatcher.lookup("ask_for_more_wishes"), None);
    assert!(ExperimentalService::new().register_endpoints(&mut dispatcher).is_ok());
    assert!(RegistrationService::new().register_endpoints(&mut dispatcher).is_ok());
    assert!(RegistrationService::new().register_endpoints(&mut dispatcher).is_err());
    assert_eq!(dispatcher.len(), 5);
    assert_eq!(FortuneService::new().name(), "FortuneService");
    assert_eq!(ExperimentalService::new().endpoints(), vec![("num_active_connections".to_string(), Handle::Local(LocalRpc::NumActiveConnections))]);
    let own = vec![("a".to_string(), Handle::Forward(peer(1))), ("b".to_string(), Handle::Forward(peer(1)))];
    assert!(install(&mut dispatcher, &"Own".to_string(), &own).is_ok());
    assert_eq!(dispatcher.lookup("b"), Some(Handle::Forward(peer(1))));
}

#[test]
fn respond_fills_in_the_response() {
    let request = call("r1", "play", Json::Null);
    assert_eq!(Dispatcher::respond(request.clone(), Ok(None)), None);
    let answered = Dispatcher::respond(request.clone(), Ok(Some(Json::Bool(true)))).unwrap();
    assert_eq!(answered, Message { resp: Some(Json::Bool(true)), ..request.clone() });
    let failed = Dispatcher::respond(
        request.clone(),
        Err(Error::from_kind(ErrorKind::SerializationError("expected value".to_string()))),
    )
    .unwrap();
    assert_eq!(failed.msg_id, "r1");
    assert_eq!(failed.resp, Some(report("error in serialization: expected value", &["expected value"])));
}

#[test]
fn every_error_says_what_went_wrong() {
    let registration = RegistrationError::handle_already_exists("play");
    let client = ClientError::strong_references_to("play");
    assert_eq!(client, ClientError { inner: ClientErrorKind::DeregisterHandleHeld("play".to_string()) });
    assert_eq!(client.message(), "Multiple strong references held to play when attempting to deregister client");
    let cases = vec![
        (Error::from_kind(ErrorKind::SerializationError("eof".to_string())), "error in serialization: eof", vec!["eof"]),
        (Error::from_kind(ErrorKind::IoError("broken pipe".to_string())), "io error: broken pipe", vec!["broken pipe"]),
        (
            Error::registration_error("FortuneService", registration),
            "failed to register service FortuneService -> Existing handle found for endpoint play",
            vec![],
        ),
        (
            Error::client_error(PeerAddr::v4(0xc0a8_0001, 80), client),
            "client 192.168.0.1:80 -> Multiple strong references held to play when attempting to deregister client",
            vec![],
        ),
        (Error::from_kind(ErrorKind::RpcError("dance".to_string())), "invalid rpc error: rpc dance is not registered", vec![]),
        (
            Error::from_kind(ErrorKind::ServerDisconnected("r2".to_string())),
            "Server disconnected while handling request to r2",
            vec![],
        ),
        (
            Error::from_kind(ErrorKind::UnexpectedResponse("r2".to_string())),
            "Received unexpected response to message r2",
            vec![],
        ),
    ];
    for (error, message, chain) in cases {
        assert_eq!(error.message(), message);
        let chain: Vec<String> = chain.into_iter().map(|c| c.to_string()).collect();
        assert_eq!(error.chain(), chain);
        assert_eq!(error.report(), ErrorMessage { error: message.to_string(), chain: chain.clone() });
        assert_eq!(
            error.report().to_json(),
            report(message, &chain.iter().map(|c| c.as_str()).collect::<Vec<_>>())
        );
    }
    assert_eq!(ErrorMessage::plain("unknown action".to_string()).to_json(), report("unknown action", &[]));
}

#[test]
fn a_new_call_has_an_id_of_its_own() {
    let one = Message::new("play".to_string(), Json::Null);
    let two = Message::new("play".to_string(), Json::Null);
    assert_eq!(one.call, "play");
    assert_eq!(one.args, Json::Null);
    assert_eq!(one.resp, None);
    assert!(!one.is_response());
    assert_eq!(one.msg_id.chars().count(), 36);
    assert_ne!(one.msg_id, two.msg_id);
    assert_eq!(one.msg_id.matches('-').count(), 4);
}

#[test]
fn a_client_is_closed_and_left_once() {
    let mut dispatcher = Dispatcher::new();
    dispatcher.register("play", Handle::Forward(peer(1)));
    dispatcher.register("pause", Handle::Forward(peer(1)));
    dispatcher.register("seek", Handle::Forward(peer(2)));
    let mut client = Client::new();
    assert_eq!(client.state(), PeerState::Connected);
    client.mark_handshook();
    assert_eq!(client.state(), PeerState::Handshook);
    client.on_exit(ExitCallback::Unregister(vec!["play".to_string()]));
    client.on_exit(ExitCallback::Unregister(vec!["pause".to_string(), "stop".to_string()]));
    assert!(client.send_close_signal());
    assert!(!client.send_close_signal());
    assert_eq!(client.state(), PeerState::Closing);
    client.mark_handshook();
    assert_eq!(client.state(), PeerState::Closing);
    assert_eq!(client.run_exit_callbacks(&mut dispatcher), 2);
    assert_eq!(dispatcher.lookup("play"), None);
    assert_eq!(dispatcher.lookup("pause"), None);
    assert_eq!(dispatcher.lookup("seek"), Some(Handle::Forward(peer(2))));
    dispatcher.register("play", Handle::Forward(peer(3)));
    assert_eq!(client.run_exit_callbacks(&mut dispatcher), 0);
    assert_eq!(dispatcher.lookup("play"), Some(Handle::Forward(peer(3))));
}

#[test]
fn the_tracker_drops_a_client_once() {
    let mut dispatcher = Dispatcher::new();
    dispatcher.register("play", Handle::Forward(peer(1)));
    let mut tracker = ClientTracker::new();
    assert_eq!(tracker.connect_client(peer(1)), Ok(()));
    assert_eq!(tracker.connect_client(peer(2)), Ok(()));
    assert_eq!(tracker.connect_client(peer(1)), Err(RegistryError::AddressInUse));
    assert_eq!(tracker.len(), 2);
    assert!(tracker.note_registration(peer(1), vec!["play".to_string()]));
    assert!(!tracker.note_registration(peer(7), vec!["pause".to_string()]));
    assert_eq!(tracker.get_client(peer(1)).unwrap().state(), PeerState::Handshook);
    assert_eq!(tracker.get_client(peer(2)).unwrap().state(), PeerState::Connected);
    assert!(tracker.get_client(peer(7)).is_none());
    assert_eq!(
        tracker.drop_client(peer(1), &mut dispatcher),
        Departure { known: true, fire_close: true, callbacks_run: 1 }
    );
    assert_eq!(dispatcher.lookup("play"), None);
    assert!(!tracker.is_connected(peer(1)));
    assert!(tracker.is_connected(peer(2)));
    assert_eq!(
        tracker.drop_client(peer(1), &mut dispatcher),
        Departure { known: false, fire_close: false, callbacks_run: 0 }
    );
    assert_eq!(tracker.len(), 1);
}

#[test]
fn the_table_of_calls_in_flight() {
    let mut router = MessageRouter::new();
    assert_eq!(router.wait_for_message(call("a", "play", Json::Null), peer(1), peer(9)), None);
    assert_eq!(router.wait_for_message(call("b", "play", Json::Null), peer(2), peer(9)), None);
    assert_eq!(router.wait_for_message(call("c", "seek", Json::Null), peer(9), peer(3)), None);
    assert_eq!(router.wait_for_message(call("d", "seek", Json::Null), peer(1), peer(3)), None);
    assert_eq!(router.len(), 4);
    // A call under an id that is in flight takes its place.
    let displaced = router.wait_for_message(call("a", "stop", Json::Null), peer(4), peer(9)).unwrap();
    assert_eq!(
        displaced,
        InFlightMessage { request: call("a", "play", Json::Null), server: peer(9), waiter: peer(1), continuation: Continuation::Deliver }
    );
    assert_eq!(router.len(), 4);
    assert_eq!(router.forward_message(&"zzz".to_string()), None);
    assert_eq!(
        router.forward_message(&"d".to_string()),
        Some(InFlightMessage { request: call("d", "seek", Json::Null), server: peer(3), waiter: peer(1), continuation: Continuation::Deliver })
    );
    assert_eq!(router.forward_message(&"d".to_string()), None);
    // Peer 9 leaves: what it was to answer is handed over in order, what it waited for is discarded.
    let lost = router.drop_client(peer(9));
    assert_eq!(
        lost,
        vec![
            InFlightMessage { request: call("b", "play", Json::Null), server: peer(9), waiter: peer(2), continuation: Continuation::Deliver },
            InFlightMessage { request: call("a", "stop", Json::Null), server: peer(9), waiter: peer(4), continuation: Continuation::Deliver },
        ]
    );
    assert_eq!(router.len(), 1);
    assert_eq!(
        router.forward_message(&"c".to_string()),
        Some(InFlightMessage { request: call("c", "seek", Json::Null), server: peer(3), waiter: peer(9), continuation: Continuation::Discard })
    );
    assert!(router.drop_client(peer(9)).is_empty());
    assert_eq!(router.len(), 0);
}

#[test]
fn a_new_call_displaces_one_under_the_same_id() {
    let s = peer(1);
    let mut server = server_with(&[s, peer(2), peer(3)]);
    register(&mut server, s, "r1", &["play"]);
    server.handle_message(call("r2", "play", Json::Str("first".to_string())), peer(2));
    let second = call("r2", "play", Json::Str("second".to_string()));
    let sent = server.handle_message(second.clone(), peer(3));
    assert_eq!(sent.len(), 2);
    assert_eq!(sent[0], RpcAction::Send { target: s, envelope: second });
    assert!(matches!(&sent[1], RpcAction::Send { target, envelope }
        if *target == peer(2) && envelope.args == Json::Str("first".to_string())
            && envelope.resp == Some(report("Server disconnected while handling request to r2", &[]))));
    assert_eq!(server.in_flight(), 1);
}

#[test]
fn reading_arguments() {
    assert_eq!(read_sign(&object(&[("sign", Json::Str("leo".to_string()))])).unwrap(), "leo");
    assert!(read_sign(&Json::Null).is_err());
    assert_eq!(
        read_app_handles(&object(&[("other", Json::Null), ("handles", strings(&["a", "b"]))])).unwrap(),
        vec!["a".to_string(), "b".to_string()]
    );
    assert_eq!(read_app_handles(&object(&[("handles", strings(&[]))])).unwrap(), Vec::<String>::new());
    assert_eq!(FortuneService::new().generate_fortune("leo"), "latin for lion");
    assert_eq!(FortuneService::new().generate_fortune(""), "Horoscope unimplemented for sign ''");
    let mut dispatcher = Dispatcher::new();
    dispatcher.register("b", Handle::Forward(peer(9)));
    let granted = RegistrationService::new().register_app_impl(
        &mut dispatcher,
        peer(1),
        &vec!["a".to_string(), "b".to_string(), "a".to_string(), "c".to_string()],
    );
    assert_eq!(granted, vec!["a".to_string(), "c".to_string()]);
    assert_eq!(dispatcher.lookup("a"), Some(Handle::Forward(peer(1))));
    assert_eq!(dispatcher.lookup("b"), Some(Handle::Forward(peer(9))));
}
