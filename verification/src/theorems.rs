use vstd::prelude::*;

use crate::addr::PeerAddr;
use crate::device::{DeviceManager, ManagerView};
use crate::errors::ErrorView;
use crate::json::JsonModel;
use crate::message::MessageDest;
use crate::peers::{
    lemma_addrs_where_complete, lemma_addrs_where_sound, lemma_first_keyed, lemma_first_keyed_none, Filter, Key,
};
use crate::registration_service::{app_handles, granted, registered_response, with_app};
use crate::rpc::dispatch::{lemma_registered, lemma_release, Handle, LocalRpc, RegistryView};
use crate::rpc::types::CallView;
use crate::serve::{notices, RpcActionView, ServerView};
use crate::state::clients::{after_exit, lemma_tracker_dropped};
use crate::state::routing::{
    ids_of, lemma_removed, lemma_surviving, lemma_waiting, lost, surviving, Continuation, FlightView, RouterView,
};
use crate::tables::{lemma_found_unique, lemma_missing};

verus! {

/// After a peer has been dropped, its address is in no part of the
/// registry: not under its address, not under any role, not under any uuid,
/// and not among the peers that a broadcast reaches.
pub proof fn drop_leaves_no_trace(manager: ManagerView, addr: PeerAddr)
    requires
        manager.wf(),
    ensures
        manager.dropped(addr).wf(),
        !manager.dropped(addr).contains(addr),
        !manager.dropped(addr).everyone().contains(addr),
        forall|role: Seq<char>| !(#[trigger] manager.dropped(addr).role_index(role)).contains(addr),
        forall|uuid: Seq<char>| #[trigger] manager.dropped(addr).uuid_index(uuid) != Some(addr),
{
    let after = manager.dropped(addr);
    lemma_first_keyed(manager.peers, Key::Addr(addr));
    assert forall|k: int| 0 <= k < after.peers.len() implies !(#[trigger] after.peers[k]).keyed(
        Key::Addr(addr),
    ) by {
        match manager.find(addr) {
            Some(i) => {
                let k2 = if k < i {
                    k
                } else {
                    k + 1
                };
                assert(after.peers[k] == manager.peers[k2]);
            },
            None => {},
        }
    }
    lemma_first_keyed_none(after.peers, Key::Addr(addr));
    secondary_indices_are_within_primary(after);
    if after.everyone().contains(addr) {
        assert(after.contains(addr));
    }
    assert forall|role: Seq<char>| !(#[trigger] after.role_index(role)).contains(addr) by {
        if after.role_index(role).contains(addr) {
            assert(after.contains(addr));
        }
    }
}

/// The secondary indices hold nothing that the primary registry lacks:
/// every address under a role or a uuid, and every address that a
/// broadcast reaches, is the address of an entry.
pub proof fn secondary_indices_are_within_primary(manager: ManagerView)
    ensures
        forall|a: PeerAddr| manager.everyone().contains(a) ==> #[trigger] manager.contains(a),
        forall|role: Seq<char>, a: PeerAddr|
            (#[trigger] manager.role_index(role)).contains(a) ==> #[trigger] manager.contains(a),
        forall|uuid: Seq<char>|
            (#[trigger] manager.uuid_index(uuid)) is Some ==> manager.contains(
                manager.uuid_index(uuid)->Some_0,
            ),
{
    assert forall|a: PeerAddr| manager.everyone().contains(a) implies #[trigger] manager.contains(
        a,
    ) by {
        let k = choose|k: int| 0 <= k < manager.everyone().len() && manager.everyone()[k] == a;
        lemma_addrs_where_sound(manager.peers, Filter::Live, k);
        lemma_first_keyed(manager.peers, Key::Addr(a));
    }
    assert forall|role: Seq<char>, a: PeerAddr|
        (#[trigger] manager.role_index(role)).contains(a) implies #[trigger] manager.contains(
        a,
    ) by {
        let found = manager.role_index(role);
        let k = choose|k: int| 0 <= k < found.len() && found[k] == a;
        lemma_addrs_where_sound(manager.peers, Filter::Role(role), k);
        lemma_first_keyed(manager.peers, Key::Addr(a));
    }
    assert forall|uuid: Seq<char>| (#[trigger] manager.uuid_index(uuid)) is Some implies manager.contains(
        manager.uuid_index(uuid)->Some_0,
    ) by {
        lemma_first_keyed(manager.peers, Key::Uuid(uuid));
        lemma_first_keyed(manager.peers, Key::Addr(manager.uuid_index(uuid)->Some_0));
    }
}

/// A handshake shows in the index by role at once, and only under the role
/// that it names: the peer is among those that claim the new role, and
/// under no other role.
pub proof fn handshake_is_indexed(
    manager: ManagerView,
    addr: PeerAddr,
    uuid: Option<Seq<char>>,
    role: Seq<char>,
    handles: Seq<Seq<char>>,
)
    requires
        manager.wf(),
        manager.writable(addr),
        role.len() > 0,
    ensures
        manager.handshaken(addr, uuid, Some(role), handles).wf(),
        manager.handshaken(addr, uuid, Some(role), handles).role_index(role).contains(addr),
        forall|other: Seq<char>|
            other != role ==> !(#[trigger] manager.handshaken(
                addr,
                uuid,
                Some(role),
                handles,
            ).role_index(other)).contains(addr),
{
    let after = manager.handshaken(addr, uuid, Some(role), handles);
    lemma_first_keyed(manager.peers, Key::Addr(addr));
    let place = manager.find(addr)->Some_0;
    assert(after.peers[place].passes(Filter::Role(role)));
    lemma_addrs_where_complete(after.peers, Filter::Role(role), place);
    assert forall|other: Seq<char>| other != role implies !(#[trigger] after.role_index(
        other,
    )).contains(addr) by {
        let found = after.role_index(other);
        if found.contains(addr) {
            let k = choose|k: int| 0 <= k < found.len() && found[k] == addr;
            lemma_addrs_where_sound(after.peers, Filter::Role(other), k);
            let i = choose|i: int|
                0 <= i < after.peers.len() && #[trigger] after.peers[i].passes(Filter::Role(other))
                    && after.peers[i].addr == found[k];
            assert(after.peers[i].addr == manager.peers[i].addr);
            assert(i == place);
        }
    }
}

/// `quit` removes nobody: every address that was registered before it is
/// registered after it, and no other.
pub proof fn quit_keeps_every_peer(manager: ManagerView, addr: PeerAddr)
    requires
        manager.wf(),
    ensures
        manager.quitting().wf(),
        manager.quitting().contains(addr) == manager.contains(addr),
{
    let after = manager.quitting();
    assert forall|i: int| 0 <= i < after.peers.len() implies (#[trigger] after.peers[i]).addr
        == manager.peers[i].addr by {}
    lemma_first_keyed(manager.peers, Key::Addr(addr));
    lemma_first_keyed(after.peers, Key::Addr(addr));
    match manager.find(addr) {
        Some(i) => {
            assert(after.peers[i].keyed(Key::Addr(addr)));
        },
        None => {
            match after.find(addr) {
                Some(j) => {
                    assert(manager.peers[j].keyed(Key::Addr(addr)));
                },
                None => {},
            }
        },
    }
}

/// Resolution is a function of the registry and the destination alone: two
/// managers that hold the same, asked for destinations that say the same,
/// name the same peers in the same order.
pub proof fn resolution_is_deterministic(
    one: DeviceManager,
    other: DeviceManager,
    dest: MessageDest,
    same_dest: MessageDest,
)
    requires
        one@ == other@,
        dest.deep_view() == same_dest.deep_view(),
    ensures
        one@.resolve(dest.deep_view()) == other@.resolve(same_dest.deep_view()),
{
}

/// A destination copy stands before its `ack` copy: where a forward asks
/// for an `ack`, the first send goes to the destination with the envelope
/// as it is, and the second to the sender under the action `ack`.
pub proof fn ack_follows_its_forward(
    manager: ManagerView,
    msg: crate::message::MessageView,
    addr: PeerAddr,
    targets: Seq<PeerAddr>,
)
    requires
        msg.dest.broadcast != Some(true),
        targets.len() > 0,
        msg.send_ack,
        manager.writable(addr),
        addr != targets[0],
    ensures
        manager.forward(msg, addr, targets).len() == 2,
        manager.forward(msg, addr, targets)[0] == (crate::device::ActionView::Send {
            target: targets[0],
            envelope: msg,
        }),
        manager.forward(msg, addr, targets)[1] == (crate::device::ActionView::Send {
            target: addr,
            envelope: msg.ack(),
        }),
{
}

/// Running exit callbacks keeps the registry well formed, frees every name
/// that one of the callbacks names, and registers nothing.
pub proof fn lemma_after_exit(registry: RegistryView, callbacks: Seq<Seq<Seq<char>>>)
    requires
        registry.wf(),
    ensures
        after_exit(registry, callbacks).wf(),
        forall|k: int, i: int|
            0 <= k < callbacks.len() && 0 <= i < callbacks[k].len() ==> !after_exit(
                registry,
                callbacks,
            ).contains(#[trigger] callbacks[k][i]),
        forall|name: Seq<char>|
            !registry.contains(name) ==> !(#[trigger] after_exit(registry, callbacks).contains(name)),
    decreases callbacks.len(),
{
    if callbacks.len() > 0 {
        let first = registry.release(callbacks[0]);
        let rest = callbacks.drop_first();
        lemma_release(registry, callbacks[0]);
        lemma_after_exit(first, rest);
        assert forall|k: int, i: int|
            0 <= k < callbacks.len() && 0 <= i < callbacks[k].len() implies !after_exit(
            registry,
            callbacks,
        ).contains(#[trigger] callbacks[k][i]) by {
            if k > 0 {
                assert(rest[k - 1] == callbacks[k]);
            } else {
                assert(!first.contains(callbacks[0][i]));
            }
        }
    }
}

/// Where `client` is to answer nothing and waits for nothing that would
/// still be delivered, its leaving changes nothing.
pub proof fn lemma_nothing_left(flights: Seq<FlightView>, client: PeerAddr)
    requires
        forall|k: int|
            0 <= k < flights.len() ==> (#[trigger] flights[k]).server != client && (flights[k].waiter
                == client ==> flights[k].continuation == Continuation::Discard),
    ensures
        surviving(flights, client) == flights,
        lost(flights, client) == Seq::<FlightView>::empty(),
    decreases flights.len(),
{
    if flights.len() > 0 {
        let front = flights.drop_last();
        assert forall|k: int| 0 <= k < front.len() implies (#[trigger] front[k]).server != client
            && (front[k].waiter == client ==> front[k].continuation == Continuation::Discard) by {
            assert(front[k] == flights[k]);
        }
        lemma_nothing_left(front, client);
        let flight = flights.last();
        assert(flight == flights[flights.len() - 1]);
        assert(flight.discarded() == flight || flight.waiter != client);
        assert(surviving(flights, client) =~= flights);
    } else {
        assert(surviving(flights, client) =~= flights);
    }
}

/// The end of a connection is final. After it, the peer is not tracked; no
/// call waits for it to answer; every response to one of its own calls will
/// be thrown away; and ending the connection once more changes nothing and
/// asks for nothing: no exit callback runs a second time, and no close
/// signal is fired again.
pub proof fn disconnect_is_final(server: ServerView, peer: PeerAddr)
    requires
        server.wf(),
    ensures
        server.disconnected(peer).0.wf(),
        !server.disconnected(peer).0.clients.contains(peer),
        forall|k: int|
            0 <= k < server.disconnected(peer).0.router.flights.len() ==> {
                let flight = #[trigger] server.disconnected(peer).0.router.flights[k];
                &&& flight.server != peer
                &&& (flight.waiter == peer ==> flight.continuation == Continuation::Discard)
            },
        server.disconnected(peer).0.disconnected(peer) == (
            server.disconnected(peer).0,
            Seq::<RpcActionView>::empty(),
        ),
{
    let after = server.disconnected(peer).0;
    lemma_tracker_dropped(server.clients, peer);
    lemma_surviving(server.router.flights, peer);
    match server.clients.get(peer) {
        Some(client) => {
            lemma_after_exit(server.registry, client.callbacks);
        },
        None => {},
    }
    lemma_nothing_left(after.router.flights, peer);
    assert(after.clients.dropped(peer) == after.clients);
    assert(notices(Seq::<FlightView>::empty(), Some(peer)) =~= Seq::<RpcActionView>::empty());
    assert(after.disconnected(peer).1 =~= Seq::<RpcActionView>::empty());
    assert(after.disconnected(peer).0 == after);
}

/// A response reaches the peer that made the call, once. The call of
/// `waiter` for a method that `app` serves goes to `app` unchanged. The
/// response that `app` sends under the same id goes to `waiter`, in the
/// call as `waiter` made it. A second response under that id reaches
/// nobody but `app`, which is told that nobody waits for it.
pub proof fn response_reaches_waiter_once(
    server: ServerView,
    call: CallView,
    waiter: PeerAddr,
    app: PeerAddr,
    response: CallView,
)
    requires
        server.wf(),
        !call.is_response(),
        server.registry.lookup(call.call) == Some(Handle::Forward(app)),
        server.clients.contains(app),
        response.is_response(),
        response.msg_id == call.msg_id,
    ensures
        ({
            let (s1, a1) = server.handle(call, waiter);
            let (s2, a2) = s1.handle(response, app);
            let (s3, a3) = s2.handle(response, app);
            &&& s1.wf() && s2.wf() && s3.wf()
            &&& a1.len() >= 1
            &&& a1[0] == (RpcActionView::Send { target: app, envelope: call })
            &&& a2 == seq![
                RpcActionView::Send {
                    target: waiter,
                    envelope: CallView { resp: response.resp, ..call },
                },
            ]
            &&& !s2.router.contains(call.msg_id)
            &&& a3 == seq![
                RpcActionView::Send {
                    target: app,
                    envelope: response.failed(ErrorView::UnexpectedResponse(call.msg_id)),
                },
            ]
        }),
{
    let (s1, a1) = server.handle(call, waiter);
    lemma_waiting(server.router, call, waiter, app);
    lemma_removed(s1.router, call.msg_id);
    let (s2, a2) = s1.handle(response, app);
    lemma_removed(s2.router, call.msg_id);
}

/// What is left of a flight when `client` leaves.
pub open spec fn left_of(flight: Option<FlightView>, client: PeerAddr) -> Option<FlightView> {
    match flight {
        Some(f) => if f.server == client {
            None
        } else if f.waiter == client {
            Some(f.discarded())
        } else {
            Some(f)
        },
        None => None,
    }
}

/// Every flight that survives `client` stands for a flight that was there,
/// and every flight that `client` was not to answer survives.
pub proof fn lemma_surviving_places(flights: Seq<FlightView>, client: PeerAddr)
    ensures
        forall|k: int|
            0 <= k < surviving(flights, client).len() ==> exists|j: int|
                0 <= j < flights.len() && #[trigger] surviving(flights, client)[k] == left_of(
                    Some(#[trigger] flights[j]),
                    client,
                )->Some_0 && flights[j].server != client,
        forall|j: int|
            0 <= j < flights.len() && (#[trigger] flights[j]).server != client ==> exists|k: int|
                0 <= k < surviving(flights, client).len() && #[trigger] surviving(flights, client)[k]
                    == left_of(Some(flights[j]), client)->Some_0,
    decreases flights.len(),
{
    if flights.len() > 0 {
        let front = flights.drop_last();
        let before = surviving(front, client);
        let all = surviving(flights, client);
        let flight = flights.last();
        lemma_surviving_places(front, client);
        assert forall|k: int| 0 <= k < all.len() implies exists|j: int|
            0 <= j < flights.len() && #[trigger] all[k] == left_of(
                Some(#[trigger] flights[j]),
                client,
            )->Some_0 && flights[j].server != client by {
            if k < before.len() {
                let j = choose|j: int|
                    0 <= j < front.len() && before[k] == left_of(Some(#[trigger] front[j]), client)->Some_0
                        && front[j].server != client;
                assert(flights[j] == front[j]);
                assert(all[k] == before[k]);
            } else {
                assert(flights[flights.len() - 1] == flight);
            }
        }
        assert forall|j: int|
            0 <= j < flights.len() && (#[trigger] flights[j]).server != client implies exists|
            k: int,
        |
            0 <= k < all.len() && #[trigger] all[k] == left_of(Some(flights[j]), client)->Some_0 by {
            if j < front.len() {
                assert(flights[j] == front[j]);
                let k = choose|k: int|
                    0 <= k < before.len() && #[trigger] before[k] == left_of(
                        Some(front[j]),
                        client,
                    )->Some_0;
                assert(all[k] == before[k]);
            } else {
                assert(all[all.len() - 1] == left_of(Some(flight), client)->Some_0);
            }
        }
    }
}

/// When `client` leaves, each call in flight is looked up as what is left
/// of it.
pub proof fn lemma_dropped_get(router: RouterView, client: PeerAddr, msg_id: Seq<char>)
    requires
        router.wf(),
    ensures
        router.dropped(client).wf(),
        router.dropped(client).get(msg_id) == left_of(router.get(msg_id), client),
{
    let after = router.dropped(client);
    lemma_surviving(router.flights, client);
    lemma_surviving_places(router.flights, client);
    router.ids().index_of_first_ensures(msg_id);
    after.ids().index_of_first_ensures(msg_id);
    match after.find(msg_id) {
        Some(k) => {
            assert(after.ids()[k] == after.flights[k].request.msg_id);
            let j = choose|j: int|
                0 <= j < router.flights.len() && after.flights[k] == left_of(
                    Some(#[trigger] router.flights[j]),
                    client,
                )->Some_0 && router.flights[j].server != client;
            assert(router.ids()[j] == msg_id);
            lemma_found_unique(router.ids(), j);
        },
        None => {
            match router.find(msg_id) {
                Some(j) => {
                    assert(router.ids()[j] == router.flights[j].request.msg_id);
                    if router.flights[j].server != client {
                        let k = choose|k: int|
                            0 <= k < after.flights.len() && #[trigger] after.flights[k] == left_of(
                                Some(router.flights[j]),
                                client,
                            )->Some_0;
                        assert(after.ids()[k] == msg_id);
                        assert(after.ids().contains(msg_id));
                    }
                },
                None => {},
            }
        },
    }
}

/// Where the peer that made a call has left before the response arrives,
/// the response reaches nobody: it is thrown away without a word.
pub proof fn response_is_discarded_after_waiter_left(
    server: ServerView,
    call: CallView,
    waiter: PeerAddr,
    app: PeerAddr,
    response: CallView,
)
    requires
        server.wf(),
        !call.is_response(),
        server.registry.lookup(call.call) == Some(Handle::Forward(app)),
        server.clients.contains(app),
        waiter != app,
        response.is_response(),
        response.msg_id == call.msg_id,
    ensures
        ({
            let (s1, a1) = server.handle(call, waiter);
            let (s2, a2) = s1.disconnected(waiter);
            let (s3, a3) = s2.handle(response, app);
            &&& a3 == Seq::<RpcActionView>::empty()
            &&& !s3.router.contains(call.msg_id)
        }),
{
    let (s1, a1) = server.handle(call, waiter);
    lemma_waiting(server.router, call, waiter, app);
    lemma_dropped_get(s1.router, waiter, call.msg_id);
    let (s2, a2) = s1.disconnected(waiter);
    lemma_removed(s2.router, call.msg_id);
}

/// Where the peer that serves a call leaves before it has answered, the
/// peer that made the call gets the error envelope of its call: the same
/// id, and the report that the server has disconnected.
pub proof fn waiter_learns_of_lost_server(
    server: ServerView,
    call: CallView,
    waiter: PeerAddr,
    app: PeerAddr,
)
    requires
        server.wf(),
        server.router.flights.len() == 0,
        !call.is_response(),
        server.registry.lookup(call.call) == Some(Handle::Forward(app)),
        server.clients.contains(app),
        waiter != app,
    ensures
        ({
            let (s1, a1) = server.handle(call, waiter);
            let (s2, a2) = s1.disconnected(app);
            &&& a2.len() >= 1
            &&& a2.last() == (RpcActionView::Send {
                target: waiter,
                envelope: call.failed(ErrorView::ServerDisconnected(call.msg_id)),
            })
            &&& !s2.router.contains(call.msg_id)
        }),
{
    let (s1, a1) = server.handle(call, waiter);
    server.router.ids().index_of_first_ensures(call.msg_id);
    let flight = FlightView {
        request: call,
        server: app,
        waiter,
        continuation: Continuation::Deliver,
    };
    assert(s1.router.flights =~= seq![flight]);
    assert(s1.router.flights.drop_last() =~= Seq::<FlightView>::empty());
    reveal_with_fuel(lost, 2);
    reveal_with_fuel(surviving, 2);
    reveal_with_fuel(notices, 2);
    assert(lost(s1.router.flights, app) =~= seq![flight]);
    assert(lost(s1.router.flights, app).drop_last() =~= Seq::<FlightView>::empty());
    assert(surviving(s1.router.flights, app) =~= Seq::<FlightView>::empty());
    let (s2, a2) = s1.disconnected(app);
    assert(ids_of(s2.router.flights) =~= Seq::<Seq<char>>::empty());
    lemma_missing(s2.router.ids(), call.msg_id);
}

/// Every name that a peer is granted is one that it asked for.
pub proof fn lemma_granted_within(registry: RegistryView, app: PeerAddr, handles: Seq<Seq<char>>)
    ensures
        forall|k: int|
            0 <= k < granted(registry, app, handles).len() ==> handles.contains(
                #[trigger] granted(registry, app, handles)[k],
            ),
    decreases handles.len(),
{
    if handles.len() > 0 {
        let rest = handles.drop_first();
        let next = registry.registered(handles[0], Handle::Forward(app));
        lemma_granted_within(registry, app, rest);
        lemma_granted_within(next, app, rest);
        let names = granted(registry, app, handles);
        assert forall|k: int| 0 <= k < names.len() implies handles.contains(#[trigger] names[k]) by {
            if registry.contains(handles[0]) {
                let j = choose|j: int| 0 <= j < rest.len() && rest[j] == names[k];
                assert(handles[j + 1] == names[k]);
            } else if k == 0 {
                assert(handles[0] == names[0]);
            } else {
                let tail = granted(next, app, rest);
                assert(names[k] == tail[k - 1]);
                let j = choose|j: int| 0 <= j < rest.len() && rest[j] == tail[k - 1];
                assert(handles[j + 1] == names[k]);
            }
        }
    }
}

/// Asking for handles keeps the registry well formed and leaves every name
/// that was registered as it was.
pub proof fn lemma_with_app_keeps(registry: RegistryView, app: PeerAddr, handles: Seq<Seq<char>>)
    requires
        registry.wf(),
    ensures
        with_app(registry, app, handles).wf(),
        forall|name: Seq<char>|
            registry.contains(name) ==> #[trigger] with_app(registry, app, handles).lookup(name)
                == registry.lookup(name),
    decreases handles.len(),
{
    if handles.len() > 0 {
        let next = registry.registered(handles[0], Handle::Forward(app));
        lemma_registered(registry, handles[0], Handle::Forward(app));
        lemma_with_app_keeps(next, app, handles.drop_first());
        assert forall|name: Seq<char>| registry.contains(name) implies #[trigger] with_app(
            registry,
            app,
            handles,
        ).lookup(name) == registry.lookup(name) by {
            if name != handles[0] {
                assert(next.lookup(name) == registry.lookup(name));
            }
        }
    }
}

/// Every name that a peer is granted is forwarded to it afterwards.
pub proof fn lemma_granted_forwarded(registry: RegistryView, app: PeerAddr, handles: Seq<Seq<char>>)
    requires
        registry.wf(),
    ensures
        forall|k: int|
            0 <= k < granted(registry, app, handles).len() ==> with_app(
                registry,
                app,
                handles,
            ).lookup(#[trigger] granted(registry, app, handles)[k]) == Some(Handle::Forward(app)),
    decreases handles.len(),
{
    if handles.len() > 0 {
        let rest = handles.drop_first();
        let next = registry.registered(handles[0], Handle::Forward(app));
        lemma_registered(registry, handles[0], Handle::Forward(app));
        lemma_granted_forwarded(next, app, rest);
        lemma_with_app_keeps(next, app, rest);
        let names = granted(registry, app, handles);
        assert forall|k: int| 0 <= k < names.len() implies with_app(registry, app, handles).lookup(
            #[trigger] names[k],
        ) == Some(Handle::Forward(app)) by {
            if registry.contains(handles[0]) {
                assert(next == registry);
            } else if k == 0 {
                assert(names[0] == handles[0]);
                assert(next.lookup(handles[0]) == Some(Handle::Forward(app)));
            } else {
                assert(names[k] == granted(next, app, rest)[k - 1]);
            }
        }
    }
}

/// What `register_app` promises. The names in its response are among those
/// asked for. A call of one of them by any peer goes to the peer that
/// registered it, unchanged. Once that peer has disconnected, the same call
/// is answered with the error of a method that nobody has registered.
pub proof fn registered_methods_follow_their_app(
    server: ServerView,
    app: PeerAddr,
    args: JsonModel,
    call: CallView,
    third: PeerAddr,
)
    requires
        server.wf(),
        server.clients.contains(app),
        app_handles(args) is Ok,
        granted(server.registry, app, app_handles(args)->Ok_0).contains(call.call),
        !call.is_response(),
    ensures
        ({
            let handles = app_handles(args)->Ok_0;
            let names = granted(server.registry, app, handles);
            let (s1, outcome) = server.local(LocalRpc::RegisterApp, app, args);
            let (s2, a2) = s1.handle(call, third);
            let (s3, a3) = s1.disconnected(app);
            let (s4, a4) = s3.handle(call, third);
            &&& outcome == Ok::<Option<JsonModel>, ErrorView>(Some(registered_response(names)))
            &&& forall|k: int| 0 <= k < names.len() ==> handles.contains(#[trigger] names[k])
            &&& s1.wf()
            &&& a2.len() >= 1
            &&& a2[0] == (RpcActionView::Send { target: app, envelope: call })
            &&& a4 == seq![
                RpcActionView::Send {
                    target: third,
                    envelope: call.failed(ErrorView::Rpc(call.call)),
                },
            ]
        }),
{
    let handles = app_handles(args)->Ok_0;
    let names = granted(server.registry, app, handles);
    let (s1, outcome) = server.local(LocalRpc::RegisterApp, app, args);
    lemma_granted_within(server.registry, app, handles);
    lemma_with_app_keeps(server.registry, app, handles);
    lemma_granted_forwarded(server.registry, app, handles);
    let n = choose|n: int| 0 <= n < names.len() && names[n] == call.call;
    assert(s1.registry.lookup(call.call) == Some(Handle::Forward(app)));
    server.clients.addrs().index_of_first_ensures(app);
    let place = server.clients.find(app)->Some_0;
    let client = server.clients.clients[place].1;
    let noted = crate::registration_service::registrant(client, names);
    assert(s1.clients.clients == server.clients.clients.update(place, (app, noted)));
    assert(s1.clients.addrs() =~= server.clients.addrs());
    assert(s1.clients.get(app) == Some(noted));
    let (s3, a3) = s1.disconnected(app);
    lemma_after_exit(s1.registry, noted.callbacks);
    let last = noted.callbacks.len() - 1;
    assert(noted.callbacks[last] == names);
    assert(noted.callbacks[last][n] == call.call);
    assert(!s3.registry.contains(call.call));
}

} // verus!
