use device_manager::addr::PeerAddr;
use device_manager::device::{Action, DeviceManager, RegistryError, Resolution};
use device_manager::json::Json;
use device_manager::message::{Locateable, Message, MessageDest, MessageSender};
use device_manager::peers::PeerState;
use device_manager::servers::{AiClient, AiManager, BasicServer};

fn peer(n: u32) -> PeerAddr {
    PeerAddr::v4(0x7f00_0001, 40000 + n as u16)
}

fn text(s: &str) -> Option<String> {
    Some(s.to_string())
}

fn request(id: &str, action: &str) -> Message {
    let mut msg = Message::new();
    msg.msg_id = id.to_string();
    msg.action = text(action);
    msg
}

fn handshake(id: &str, uuid: &str, role: &str) -> Message {
    let mut msg = request(id, "handshake");
    msg.sender.uuid = text(uuid);
    msg.sender.role = text(role);
    msg
}

fn manager_with(peers: &[(PeerAddr, &str, &str)]) -> DeviceManager {
    let mut manager = DeviceManager::new("192.168.1.7".to_string());
    for (i, (addr, uuid, role)) in peers.iter().enumerate() {
        assert_eq!(manager.add_connection(*addr), Ok(()));
        let sent = manager.receive(handshake(&format!("h{}", i), uuid, role), *addr, "unused".to_string());
        assert_eq!(sent.len(), 1);
    }
    manager
}

fn error_report(error: &str) -> Json {
    Json::Object(vec![
        ("error".to_string(), Json::Str(error.to_string())),
        ("chain".to_string(), Json::Array(vec![])),
    ])
}

#[test]
fn new_manager_holds_only_itself() {
    let manager = DeviceManager::new("10.0.0.1".to_string());
    assert_eq!(manager.len(), 1);
    let own = manager.get(PeerAddr::v4(0, 0)).expect("the manager's own entry");
    assert!(own.is_manager());
    assert_eq!(own.get_role(), "manager");
    assert_eq!(own.get_uuid(), "");
}

#[test]
fn add_connection_refuses_an_address_twice() {
    let mut manager = DeviceManager::new("10.0.0.1".to_string());
    assert_eq!(manager.add_connection(peer(1)), Ok(()));
    assert_eq!(manager.add_connection(peer(1)), Err(RegistryError::AddressInUse));
    assert_eq!(manager.add_connection(PeerAddr::v4(0, 0)), Err(RegistryError::AddressInUse));
    assert_eq!(manager.len(), 2);
    let entry = manager.get(peer(1)).unwrap();
    assert_eq!(entry.get_addr(), peer(1));
    assert!(!entry.is_manager());
    assert_eq!(entry.get_role(), "");
    assert!(manager.get(peer(2)).is_none());
}

#[test]
fn handshake_is_echoed_to_its_sender() {
    let mut manager = DeviceManager::new("192.168.1.7".to_string());
    manager.add_connection(peer(1)).unwrap();
    let sent = manager.receive(handshake("m1", "A", "cli"), peer(1), "unused".to_string());
    assert_eq!(sent.len(), 1);
    match &sent[0] {
        Action::Send { target, envelope } => {
            assert_eq!(*target, peer(1));
            assert_eq!(envelope.msg_id, "m1");
            assert_eq!(envelope.action, text("handshake"));
            assert_eq!(envelope.resp, None);
            assert_eq!(envelope.dest.uuid, text("A"));
            assert_eq!(envelope.dest.role, text("cli"));
            assert_eq!(envelope.dest.addr, text("192.168.1.7"));
            assert_eq!(envelope.dest.broadcast, None);
            assert_eq!(envelope.route, vec!["192.168.1.7".to_string()]);
            assert_eq!(envelope.sender.addr, text("192.168.1.7"));
        }
        other => panic!("unexpected action {:?}", other),
    }
    let entry = manager.get(peer(1)).unwrap();
    assert_eq!(entry.get_uuid(), "A");
    assert_eq!(entry.get_role(), "cli");
}

#[test]
fn handshake_then_direct() {
    let mut manager = manager_with(&[(peer(1), "A", "cli"), (peer(2), "B", "player")]);
    let mut msg = request("m3", "play");
    msg.sender.uuid = text("A");
    msg.dest.role = text("player");
    msg.args = Some(vec![Json::Str("song".to_string())]);
    msg.send_ack = false;
    let sent = manager.receive(msg, peer(1), "unused".to_string());
    assert_eq!(sent.len(), 1);
    match &sent[0] {
        Action::Send { target, envelope } => {
            assert_eq!(*target, peer(2));
            assert_eq!(envelope.msg_id, "m3");
            assert_eq!(envelope.action, text("play"));
            assert_eq!(envelope.args, Some(vec![Json::Str("song".to_string())]));
            assert_eq!(envelope.dest.role, text("player"));
        }
        other => panic!("unexpected action {:?}", other),
    }
}

#[test]
fn direct_with_ack() {
    let mut manager = manager_with(&[(peer(1), "A", "cli"), (peer(2), "B", "player")]);
    let mut msg = request("m3", "play");
    msg.sender.uuid = text("A");
    msg.dest.role = text("player");
    msg.args = Some(vec![Json::Str("song".to_string())]);
    msg.send_ack = true;
    let sent = manager.receive(msg, peer(1), "unused".to_string());
    assert_eq!(sent.len(), 2);
    match &sent[0] {
        Action::Send { target, envelope } => {
            assert_eq!(*target, peer(2));
            assert_eq!(envelope.msg_id, "m3");
            assert_eq!(envelope.action, text("play"));
        }
        other => panic!("unexpected action {:?}", other),
    }
    match &sent[1] {
        Action::Send { target, envelope } => {
            assert_eq!(*target, peer(1));
            assert_eq!(envelope.msg_id, "m3");
            assert_eq!(envelope.action, text("ack"));
            assert_eq!(envelope.args, Some(vec![Json::Str("song".to_string())]));
        }
        other => panic!("unexpected action {:?}", other),
    }
}

#[test]
fn no_ack_where_the_sender_is_the_destination() {
    let mut manager = manager_with(&[(peer(1), "A", "player")]);
    let mut msg = request("m3", "play");
    msg.dest.role = text("player");
    msg.send_ack = true;
    let sent = manager.receive(msg, peer(1), "unused".to_string());
    assert_eq!(sent.len(), 1);
    assert!(matches!(&sent[0], Action::Send { target, envelope } if *target == peer(1) && envelope.action == text("play")));
}

#[test]
fn no_ack_for_an_unregistered_sender() {
    let mut manager = manager_with(&[(peer(2), "B", "player")]);
    let mut msg = request("m3", "play");
    msg.dest.role = text("player");
    msg.send_ack = true;
    let sent = manager.receive(msg, peer(9), "unused".to_string());
    assert_eq!(sent.len(), 1);
    assert!(matches!(&sent[0], Action::Send { target, .. } if *target == peer(2)));
}

#[test]
fn a_role_with_several_peers_goes_to_the_first() {
    let mut manager =
        manager_with(&[(peer(1), "A", "cli"), (peer(2), "B", "player"), (peer(3), "C", "player")]);
    let mut dest = MessageDest { broadcast: None, role: text("player"), addr: None, uuid: None, intra_device: None };
    assert_eq!(manager.resolve_destination_targets(&dest), Resolution::Peers(vec![peer(2), peer(3)]));
    dest.role = text("cli");
    assert_eq!(manager.resolve_destination_targets(&dest), Resolution::Peers(vec![peer(1)]));
    let mut msg = request("m3", "play");
    msg.dest.role = text("player");
    let sent = manager.receive(msg, peer(1), "unused".to_string());
    assert_eq!(sent.len(), 1);
    assert!(matches!(&sent[0], Action::Send { target, .. } if *target == peer(2)));
}

#[test]
fn broadcast() {
    let mut manager =
        manager_with(&[(peer(1), "A", "cli"), (peer(2), "B", "player"), (peer(3), "C", "search")]);
    let mut msg = request("m4", "ping");
    msg.dest.broadcast = Some(true);
    msg.send_ack = true;
    let sent = manager.receive(msg, peer(1), "unused".to_string());
    assert_eq!(sent.len(), 3);
    for (action, addr) in sent.iter().zip([peer(1), peer(2), peer(3)]) {
        match action {
            Action::Send { target, envelope } => {
                assert_eq!(*target, addr);
                assert_eq!(envelope.msg_id, "m4");
                assert_eq!(envelope.action, text("ping"));
            }
            other => panic!("unexpected action {:?}", other),
        }
    }
}

#[test]
fn broadcast_to_nobody_asks_for_nothing() {
    let mut manager = DeviceManager::new("10.0.0.1".to_string());
    let mut msg = request("m4", "ping");
    msg.dest.broadcast = Some(true);
    assert!(manager.receive(msg, peer(1), "unused".to_string()).is_empty());
}

#[test]
fn local_search() {
    let mut manager = manager_with(&[(peer(1), "A", "cli")]);
    let mut msg = request("m5", "search");
    msg.dest.role = text("manager");
    msg.args = Some(vec![Json::Str("muse".to_string())]);
    let mut sent = manager.receive(msg, peer(1), "unused".to_string());
    assert_eq!(sent.len(), 1);
    let (query, request, sender) = match sent.pop().unwrap() {
        Action::Search { query, request, sender } => (query, request, sender),
        other => panic!("unexpected action {:?}", other),
    };
    assert_eq!(query, "muse");
    assert_eq!(sender, peer(1));
    assert_eq!(request.msg_id, "m5");
    let found = vec!["/music/muse/uprising.mp3".to_string(), "/music/muse/starlight.mp3".to_string()];
    let sent = manager.complete_search(request, &found, sender);
    assert_eq!(sent.len(), 1);
    match &sent[0] {
        Action::Send { target, envelope } => {
            assert_eq!(*target, peer(1));
            assert_eq!(envelope.msg_id, "m5");
            assert_eq!(
                envelope.resp,
                Some(Json::Array(vec![
                    Json::Str("/music/muse/uprising.mp3".to_string()),
                    Json::Str("/music/muse/starlight.mp3".to_string()),
                ]))
            );
            assert_eq!(envelope.action, text("search"));
        }
        other => panic!("unexpected action {:?}", other),
    }
}

#[test]
fn search_without_results_answers_with_an_empty_array() {
    let manager = manager_with(&[(peer(1), "A", "cli")]);
    let sent = manager.complete_search(request("m5", "search"), &vec![], peer(1));
    assert!(matches!(&sent[0], Action::Send { envelope, .. } if envelope.resp == Some(Json::Array(vec![]))));
}

#[test]
fn search_refuses_a_request_without_a_query() {
    let mut manager = manager_with(&[(peer(1), "A", "cli")]);
    let mut msg = request("m5", "search");
    msg.dest.role = text("device");
    let sent = manager.receive(msg, peer(1), "unused".to_string());
    assert_eq!(sent.len(), 1);
    match &sent[0] {
        Action::Send { target, envelope } => {
            assert_eq!(*target, peer(1));
            assert_eq!(envelope.msg_id, "m5");
            assert_eq!(envelope.action, text("error"));
            assert_eq!(envelope.resp, Some(error_report("No arguments provided to manager search query")));
        }
        other => panic!("unexpected action {:?}", other),
    }
    for args in [vec![], vec![Json::Number("3".to_string())], vec![Json::Null, Json::Str("muse".to_string())]] {
        let mut msg = request("m5", "search");
        msg.args = Some(args);
        let sent = manager.receive(msg, peer(1), "unused".to_string());
        assert!(matches!(&sent[0], Action::Send { envelope, .. }
            if envelope.resp == Some(error_report("Search expects arg[0] having type `String`"))));
    }
}

#[test]
fn quit() {
    let mut manager = manager_with(&[(peer(1), "A", "cli"), (peer(2), "B", "player")]);
    let mut msg = request("m6", "quit");
    msg.dest.role = text("manager");
    let sent = manager.receive(msg, peer(2), "unused".to_string());
    assert_eq!(
        sent,
        vec![Action::Close { target: peer(1) }, Action::Close { target: peer(2) }, Action::Shutdown]
    );
    assert_eq!(manager.len(), 3);
    assert_eq!(manager.get(peer(1)).unwrap().state(), PeerState::Closing);
    assert_eq!(manager.get(peer(2)).unwrap().state(), PeerState::Closing);
    // Every signal is fired once: a second quit and the drops that follow ask for none.
    let mut again = request("m7", "quit");
    again.dest.role = text("manager");
    assert!(manager.receive(again, peer(1), "unused".to_string()).is_empty());
    assert!(manager.drop_connection(peer(1)).is_empty());
    assert!(manager.drop_connection(peer(2)).is_empty());
    assert_eq!(manager.len(), 1);
}

#[test]
fn stop_drops_the_sender_without_a_reply() {
    let mut manager = manager_with(&[(peer(1), "A", "cli"), (peer(2), "B", "player")]);
    let sent = manager.receive(request("m8", "stop"), peer(1), "unused".to_string());
    assert_eq!(sent, vec![Action::Close { target: peer(1) }]);
    assert!(manager.get(peer(1)).is_none());
    assert!(manager.get(peer(2)).is_some());
    let dest = MessageDest { broadcast: None, role: text("cli"), addr: None, uuid: None, intra_device: None };
    assert_eq!(manager.resolve_destination_targets(&dest), Resolution::Unknown);
    let dest = MessageDest { broadcast: None, role: None, addr: None, uuid: text("A"), intra_device: None };
    assert_eq!(manager.resolve_destination_targets(&dest), Resolution::Unknown);
    let dest = MessageDest { broadcast: Some(true), role: None, addr: None, uuid: None, intra_device: None };
    assert_eq!(manager.resolve_destination_targets(&dest), Resolution::Peers(vec![peer(2)]));
}

#[test]
fn drop_connection_fires_the_close_signal_once() {
    let mut manager = manager_with(&[(peer(1), "A", "cli")]);
    assert_eq!(manager.drop_connection(peer(1)), vec![Action::Close { target: peer(1) }]);
    assert!(manager.drop_connection(peer(1)).is_empty());
    assert!(manager.drop_connection(peer(5)).is_empty());
    assert!(manager.get(peer(1)).is_none());
}

#[test]
fn unknown_action_is_refused() {
    let mut manager = manager_with(&[(peer(1), "A", "cli")]);
    for msg in [request("m9", "dance"), request("m9", "ack"), { let mut m = Message::new(); m.msg_id = "m9".to_string(); m }] {
        let sent = manager.receive(msg, peer(1), "unused".to_string());
        assert_eq!(sent.len(), 1);
        match &sent[0] {
            Action::Send { target, envelope } => {
                assert_eq!(*target, peer(1));
                assert_eq!(envelope.msg_id, "m9");
                assert_eq!(envelope.action, text("error"));
                assert_eq!(envelope.resp, Some(error_report("unknown action")));
                assert_eq!(envelope.dest.uuid, None);
            }
            other => panic!("unexpected action {:?}", other),
        }
    }
}

#[test]
fn unknown_destination_is_refused() {
    let mut manager = manager_with(&[(peer(1), "A", "cli")]);
    let mut by_role = request("m10", "play");
    by_role.dest.role = text("player");
    let mut by_uuid = request("m10", "play");
    by_uuid.dest.uuid = text("nobody");
    let mut by_empty_role = request("m10", "play");
    by_empty_role.dest.role = text("");
    for msg in [by_role, by_uuid, by_empty_role] {
        let sent = manager.receive(msg, peer(1), "unused".to_string());
        assert_eq!(sent.len(), 1);
        match &sent[0] {
            Action::Send { target, envelope } => {
                assert_eq!(*target, peer(1));
                assert_eq!(envelope.msg_id, "m10");
                assert_eq!(envelope.action, text("error"));
                assert_eq!(envelope.resp, Some(error_report("unknown destination")));
            }
            other => panic!("unexpected action {:?}", other),
        }
    }
    // Nobody to tell where the sender is not registered either.
    let mut lost = request("m10", "play");
    lost.dest.role = text("player");
    assert!(manager.receive(lost, peer(7), "unused".to_string()).is_empty());
}

#[test]
fn resolution_follows_its_order() {
    let manager = manager_with(&[(peer(1), "A", "cli"), (peer(2), "B", "manager"), (peer(3), "", "cli")]);
    let dest = |broadcast: Option<bool>, uuid: Option<&str>, role: Option<&str>| MessageDest {
        broadcast,
        role: role.map(|r| r.to_string()),
        addr: None,
        uuid: uuid.map(|u| u.to_string()),
        intra_device: None,
    };
    let everyone = Resolution::Peers(vec![peer(1), peer(2), peer(3)]);
    assert_eq!(manager.resolve_destination_targets(&dest(Some(true), Some("A"), Some("manager"))), everyone);
    assert_eq!(manager.resolve_destination_targets(&dest(Some(false), Some("A"), Some("manager"))), Resolution::Peers(vec![peer(1)]));
    assert_eq!(manager.resolve_destination_targets(&dest(None, Some("B"), Some("cli"))), Resolution::Peers(vec![peer(2)]));
    assert_eq!(manager.resolve_destination_targets(&dest(None, Some("Z"), Some("manager"))), Resolution::Manager);
    assert_eq!(manager.resolve_destination_targets(&dest(None, None, Some("device"))), Resolution::Manager);
    assert_eq!(manager.resolve_destination_targets(&dest(None, Some("Z"), Some("cli"))), Resolution::Peers(vec![peer(1), peer(3)]));
    assert_eq!(manager.resolve_destination_targets(&dest(None, None, None)), Resolution::Manager);
    assert_eq!(manager.resolve_destination_targets(&dest(None, Some("Z"), None)), Resolution::Unknown);
    assert_eq!(manager.resolve_destination_targets(&dest(None, Some(""), None)), Resolution::Unknown);
    assert_eq!(manager.resolve_destination_targets(&dest(None, None, Some("player"))), Resolution::Unknown);
    // The same question has the same answer.
    assert_eq!(
        manager.resolve_destination_targets(&dest(None, None, Some("cli"))),
        manager.resolve_destination_targets(&dest(None, None, Some("cli")))
    );
}

#[test]
fn a_second_handshake_replaces_the_identity_and_adds_handles() {
    let mut manager = DeviceManager::new("10.0.0.1".to_string());
    manager.add_connection(peer(1)).unwrap();
    let mut first = handshake("h1", "A", "cli");
    first.args = Some(vec![Json::Object(vec![(
        "registered_handles".to_string(),
        Json::Array(vec![Json::Str("play".to_string()), Json::Number("7".to_string()), Json::Str("pause".to_string())]),
    )])]);
    manager.handshake(&first, peer(1));
    {
        let entry = manager.get(peer(1)).unwrap();
        assert_eq!(entry.state(), PeerState::Handshook);
        assert!(entry.can_respond_to_handle("play"));
        assert!(entry.can_respond_to_handle("pause"));
        assert!(!entry.can_respond_to_handle("7"));
        assert!(!entry.can_respond_to_handle("stop"));
    }
    let mut second = request("h2", "handshake");
    second.sender.role = text("player");
    second.args = Some(vec![Json::Object(vec![(
        "registered_handles".to_string(),
        Json::Array(vec![Json::Str("stop".to_string())]),
    )])]);
    manager.handshake(&second, peer(1));
    let entry = manager.get(peer(1)).unwrap();
    assert_eq!(entry.get_uuid(), "A");
    assert_eq!(entry.get_role(), "player");
    assert!(entry.can_respond_to_handle("play"));
    assert!(entry.can_respond_to_handle("stop"));
    let dest = MessageDest { broadcast: None, role: text("cli"), addr: None, uuid: None, intra_device: None };
    assert_eq!(manager.resolve_destination_targets(&dest), Resolution::Unknown);
    let dest = MessageDest { broadcast: None, role: text("player"), addr: None, uuid: None, intra_device: None };
    assert_eq!(manager.resolve_destination_targets(&dest), Resolution::Peers(vec![peer(1)]));
}

#[test]
fn handshake_of_a_stranger_changes_nothing() {
    let mut manager = manager_with(&[(peer(1), "A", "cli")]);
    manager.handshake(&handshake("h9", "Z", "player"), peer(9));
    manager.handshake(&handshake("h9", "Z", "player"), PeerAddr::v4(0, 0));
    assert_eq!(manager.len(), 2);
    assert_eq!(manager.get(PeerAddr::v4(0, 0)).unwrap().get_role(), "manager");
    let dest = MessageDest { broadcast: None, role: text("player"), addr: None, uuid: None, intra_device: None };
    assert_eq!(manager.resolve_destination_targets(&dest), Resolution::Unknown);
}

#[test]
fn an_envelope_keeps_its_id_and_gets_one_where_it_has_none() {
    let mut manager = manager_with(&[(peer(1), "A", "cli"), (peer(2), "B", "player")]);
    let mut named = request("m3", "play");
    named.dest.role = text("player");
    let sent = manager.handle_request(named, peer(1));
    assert!(matches!(&sent[0], Action::Send { envelope, .. } if envelope.msg_id == "m3"));
    let mut ids = Vec::new();
    for _ in 0..2 {
        let mut unnamed = request("", "play");
        unnamed.dest.role = text("player");
        let mut sent = manager.handle_request(unnamed, peer(1));
        match sent.pop().unwrap() {
            Action::Send { envelope, .. } => ids.push(envelope.msg_id),
            other => panic!("unexpected action {:?}", other),
        }
    }
    assert_eq!(ids[0].chars().count(), 36);
    assert_eq!(ids[1].chars().count(), 36);
    assert_ne!(ids[0], ids[1]);
    let mut given = request("", "play");
    given.dest.role = text("player");
    let sent = manager.receive(given, peer(1), "fresh-id".to_string());
    assert!(matches!(&sent[0], Action::Send { envelope, .. } if envelope.msg_id == "fresh-id"));
}

#[test]
fn stamping_extends_the_route_and_keeps_a_sender_address() {
    let mut msg = Message::new();
    msg.route = vec!["10.0.0.9".to_string()];
    msg.sender.addr = text("10.0.0.9");
    msg.stamp(&"10.0.0.1".to_string());
    assert_eq!(msg.route, vec!["10.0.0.9".to_string(), "10.0.0.1".to_string()]);
    assert_eq!(msg.sender.addr, text("10.0.0.9"));
    let mut fresh = Message::new();
    fresh.stamp(&"10.0.0.1".to_string());
    assert_eq!(fresh.route, vec!["10.0.0.1".to_string()]);
    assert_eq!(fresh.sender.addr, text("10.0.0.1"));
}

#[test]
fn forwarding_keeps_what_the_manager_does_not_read() {
    let mut manager = manager_with(&[(peer(1), "A", "cli"), (peer(2), "B", "player")]);
    let mut msg = request("m3", "play");
    msg.dest.role = text("player");
    msg.dest.intra_device = Some(true);
    msg.parent_id = text("m2");
    msg.forward = Some(true);
    msg.body = Some(Json::Object(vec![("volume".to_string(), Json::Number("0.5".to_string()))]));
    msg.extra = vec![("priority".to_string(), Json::Bool(true))];
    let sent = manager.receive(msg.clone(), peer(1), "unused".to_string());
    let mut expected = msg;
    expected.stamp(&"192.168.1.7".to_string());
    assert_eq!(sent, vec![Action::Send { target: peer(2), envelope: expected }]);
}

#[test]
fn message_new_is_empty() {
    let msg = Message::new();
    assert_eq!(msg.msg_id, "");
    assert_eq!(msg.parent_id, None);
    assert!(!msg.send_ack);
    assert!(msg.route.is_empty());
    assert_eq!(msg.sender, MessageSender { uuid: None, role: None, addr: None });
    assert_eq!(msg.dest, MessageDest { broadcast: None, role: None, addr: None, uuid: None, intra_device: None });
    assert_eq!(msg.action, None);
    assert_eq!(msg.args, None);
    assert_eq!(msg.resp, None);
    assert_eq!(msg.body, None);
    assert!(!msg.is_response());
    assert!(msg.into_answered(Json::Null).is_response());
}

#[test]
fn a_sender_becomes_the_destination_of_its_reply() {
    let sender = MessageSender { uuid: text("A"), role: text("cli"), addr: text("10.0.0.1") };
    assert_eq!(sender.location(), (text("A"), text("10.0.0.1"), text("cli")));
    assert!(!sender.device_only());
    let dest = sender.into_dest();
    assert_eq!(
        dest,
        MessageDest { broadcast: None, role: text("cli"), addr: text("10.0.0.1"), uuid: text("A"), intra_device: None }
    );
    assert_eq!(dest.location(), (text("A"), text("10.0.0.1"), text("cli")));
    assert!(!dest.device_only());
    let local = MessageDest { broadcast: None, role: None, addr: None, uuid: None, intra_device: Some(true) };
    assert!(local.device_only());
    let remote = MessageDest { broadcast: None, role: None, addr: None, uuid: None, intra_device: Some(false) };
    assert!(!remote.device_only());
}

#[test]
fn outgoing_envelopes_pass_unchanged() {
    let manager = DeviceManager::new("10.0.0.1".to_string());
    let msg = request("m1", "play");
    assert_eq!(manager.handle_response(msg.clone(), peer(1)), msg);
}

#[test]
fn the_idle_servers_do_nothing() {
    let mut manager = AiManager::new();
    assert_eq!(manager.add_connection(peer(1)), Ok(()));
    assert!(manager.handle_request(request("m1", "play"), peer(1)).is_empty());
    assert_eq!(manager.handle_response(request("m1", "play"), peer(1)), request("m1", "play"));
    assert!(manager.drop_connection(peer(1)).is_empty());
    let mut client = AiClient::new();
    assert_eq!(client.add_connection(peer(1)), Ok(()));
    assert!(client.handle_request(request("m1", "play"), peer(1)).is_empty());
    assert_eq!(client.handle_response(request("m1", "play"), peer(1)), request("m1", "play"));
    assert!(client.drop_connection(peer(1)).is_empty());
}

#[test]
fn the_manager_serves_behind_a_connection() {
    fn run<S: BasicServer>(server: &mut S) -> Vec<Action> {
        server.add_connection(peer(1)).unwrap();
        let mut msg = request("m5", "search");
        msg.args = Some(vec![Json::Str("muse".to_string())]);
        let mut sent = server.handle_request(msg, peer(1));
        sent.extend(server.drop_connection(peer(1)));
        sent
    }
    let mut manager = DeviceManager::new("10.0.0.1".to_string());
    let sent = run(&mut manager);
    assert_eq!(sent.len(), 2);
    assert!(matches!(&sent[0], Action::Search { query, sender, .. } if query == "muse" && *sender == peer(1)));
    assert_eq!(sent[1], Action::Close { target: peer(1) });
}
