use vstd::prelude::*;

use crate::addr::PeerAddr;
use crate::device::RegistryError;
use crate::errors::{Error, ErrorKind, ErrorView};
use crate::experimental_service::{active_connections_response, ExperimentalService};
use crate::fortune_service::{deaf_to_fortune, fortune_response, told_fortune, FortuneService};
use crate::json::{Json, JsonModel};
use crate::peers::PeerState;
use crate::registration_service::{app_registered, RegistrationService};
use crate::rpc::dispatch::{
    lemma_registered, outcome_view, reply_for, Dispatcher, Handle, LocalRpc, RegistryView,
};
use crate::rpc::service::Service;
use crate::rpc::types::{CallView, Message};
use crate::state::clients::{after_exit, ClientTracker, TrackerView};
use crate::state::routing::{
    lost, Continuation, FlightView, InFlightMessage, MessageRouter, RouterView,
};
use crate::tables::lemma_missing;
use crate::text::addr_text;

verus! {

/// What the caller of the server is asked to do, in the order given.
#[derive(Debug, PartialEq, Eq)]
pub enum RpcAction {
    /// Put `envelope` at the end of the write queue of `target`.
    Send { target: PeerAddr, envelope: Message },
    /// Fire the close signal of `target`.
    Close { target: PeerAddr },
}

pub ghost enum RpcActionView {
    Send { target: PeerAddr, envelope: CallView },
    Close { target: PeerAddr },
}

impl DeepView for RpcAction {
    type V = RpcActionView;

    open spec fn deep_view(&self) -> RpcActionView {
        match self {
            RpcAction::Send { target, envelope } => RpcActionView::Send {
                target: *target,
                envelope: envelope.deep_view(),
            },
            RpcAction::Close { target } => RpcActionView::Close { target: *target },
        }
    }
}

/// What the waiter of `flight` is told when the call will not be answered:
/// the error envelope of its call. Nothing where its response would be
/// thrown away anyway, or where the waiter is `gone` itself.
pub open spec fn notice(flight: FlightView, gone: Option<PeerAddr>) -> Seq<RpcActionView> {
    if flight.continuation == Continuation::Deliver && gone != Some(flight.waiter) {
        seq![
            RpcActionView::Send {
                target: flight.waiter,
                envelope: flight.request.failed(
                    ErrorView::ServerDisconnected(flight.request.msg_id),
                ),
            },
        ]
    } else {
        Seq::empty()
    }
}

/// The notices for `flights`, in their order.
pub open spec fn notices(flights: Seq<FlightView>, gone: Option<PeerAddr>) -> Seq<RpcActionView>
    decreases flights.len(),
{
    if flights.len() == 0 {
        Seq::empty()
    } else {
        notices(flights.drop_last(), gone) + notice(flights.last(), gone)
    }
}

/// The state of the RPC server: the methods, the connections and the calls
/// in flight.
pub ghost struct ServerView {
    pub registry: RegistryView,
    pub clients: TrackerView,
    pub router: RouterView,
}

impl ServerView {
    pub open spec fn wf(self) -> bool {
        self.registry.wf() && self.clients.wf() && self.router.wf()
    }

    /// What the method `rpc` of a linked service makes of the arguments
    /// `args` of `caller`.
    pub open spec fn local(self, rpc: LocalRpc, caller: PeerAddr, args: JsonModel) -> (
        ServerView,
        Result<Option<JsonModel>, ErrorView>,
    ) {
        match rpc {
            LocalRpc::NumActiveConnections => (self, Ok(Some(active_connections_response()))),
            LocalRpc::TellFortune => (self, told_fortune(args)),
            LocalRpc::FakeFortune => (self, Ok(Some(fortune_response("Bah"@)))),
            LocalRpc::DeafFortune => (self, deaf_to_fortune(args)),
            LocalRpc::AskForMoreWishes => (self, Ok(None)),
            LocalRpc::RegisterApp => {
                let (registry, clients, outcome) = app_registered(
                    self.registry,
                    self.clients,
                    caller,
                    args,
                );
                (ServerView { registry, clients, ..self }, outcome)
            },
        }
    }

    /// The envelope `envelope` on its way to `peer`, if there is one.
    pub open spec fn send(peer: PeerAddr, envelope: Option<CallView>) -> Seq<RpcActionView> {
        match envelope {
            Some(envelope) => seq![RpcActionView::Send { target: peer, envelope }],
            None => Seq::empty(),
        }
    }

    /// What the server does with the call `msg` of `peer`. A method that
    /// nobody has registered is answered with an error. A method of a
    /// linked service is called, and what it gives goes back to `peer`. A
    /// method that a peer serves is forwarded to that peer unchanged, and
    /// `peer` waits for the response; it is answered with an error at once
    /// where that peer is gone.
    pub open spec fn call(self, msg: CallView, peer: PeerAddr) -> (ServerView, Seq<RpcActionView>) {
        match self.registry.lookup(msg.call) {
            None => (self, Self::send(peer, Some(msg.failed(ErrorView::Rpc(msg.call))))),
            Some(Handle::Local(rpc)) => {
                let (next, outcome) = self.local(rpc, peer, msg.args);
                (next, Self::send(peer, reply_for(msg, outcome)))
            },
            Some(Handle::Forward(server)) => if !self.clients.contains(server) {
                (
                    self,
                    Self::send(
                        peer,
                        Some(
                            msg.failed(
                                ErrorView::Io(
                                    "Receiving end for server "@ + addr_text(server) + " dropped"@,
                                ),
                            ),
                        ),
                    ),
                )
            } else {
                (
                    ServerView { router: self.router.waiting(msg, peer, server), ..self },
                    seq![RpcActionView::Send { target: server, envelope: msg }] + (
                    match self.router.get(msg.msg_id) {
                        Some(displaced) => notice(displaced, None),
                        None => Seq::empty(),
                    }),
                )
            },
        }
    }

    /// What the server does with the response `msg` that `peer` has sent.
    /// Where a call is in flight under its id, the call leaves the table,
    /// and goes to its waiter with the response in it, unless the waiter
    /// has left. Where none is, `peer` is told so.
    pub open spec fn answer(self, msg: CallView, peer: PeerAddr) -> (ServerView, Seq<RpcActionView>) {
        match self.router.get(msg.msg_id) {
            Some(flight) => (
                ServerView { router: self.router.removed(msg.msg_id), ..self },
                if flight.continuation == Continuation::Deliver {
                    seq![
                        RpcActionView::Send {
                            target: flight.waiter,
                            envelope: CallView { resp: msg.resp, ..flight.request },
                        },
                    ]
                } else {
                    Seq::empty()
                },
            ),
            None => (
                self,
                Self::send(peer, Some(msg.failed(ErrorView::UnexpectedResponse(msg.msg_id)))),
            ),
        }
    }

    /// What the server does with the envelope `msg` read from `peer`.
    pub open spec fn handle(self, msg: CallView, peer: PeerAddr) -> (ServerView, Seq<RpcActionView>) {
        if msg.is_response() {
            self.answer(msg, peer)
        } else {
            self.call(msg, peer)
        }
    }

    /// The server once the connection of `peer` has ended, and what is
    /// asked for: its close signal, unless that was fired before, and the
    /// error envelopes for those who waited for `peer`.
    pub open spec fn disconnected(self, peer: PeerAddr) -> (ServerView, Seq<RpcActionView>) {
        (
            ServerView {
                registry: match self.clients.get(peer) {
                    Some(client) => after_exit(self.registry, client.callbacks),
                    None => self.registry,
                },
                clients: self.clients.dropped(peer),
                router: self.router.dropped(peer),
            },
            (match self.clients.get(peer) {
                Some(client) => if client.state != PeerState::Closing {
                    seq![RpcActionView::Close { target: peer }]
                } else {
                    Seq::empty()
                },
                None => Seq::empty(),
            }) + notices(lost(self.router.flights, peer), Some(peer)),
        )
    }
}

fn push_rpc_action(actions: &mut Vec<RpcAction>, action: RpcAction)
    ensures
        final(actions).deep_view() == old(actions).deep_view().push(action.deep_view()),
{
    actions.push(action);
    assert(final(actions).deep_view() =~= old(actions).deep_view().push(action.deep_view()));
}

fn no_rpc_actions() -> (r: Vec<RpcAction>)
    ensures
        r.deep_view() == Seq::<RpcActionView>::empty(),
{
    let r: Vec<RpcAction> = Vec::new();
    assert(r.deep_view() =~= Seq::<RpcActionView>::empty());
    r
}

/// Asks for `envelope` to be sent to `peer`, if there is one.
fn send_to(peer: PeerAddr, envelope: Option<Message>) -> (r: Vec<RpcAction>)
    ensures
        r.deep_view() == ServerView::send(peer, envelope.deep_view()),
{
    let mut actions = no_rpc_actions();
    match envelope {
        Some(envelope) => {
            push_rpc_action(&mut actions, RpcAction::Send { target: peer, envelope });
            assert(actions.deep_view() =~= ServerView::send(peer, Some(envelope.deep_view())));
        },
        None => {},
    }
    actions
}

/// Adds the notice for `flight` to `actions`.
fn push_notice(actions: &mut Vec<RpcAction>, flight: InFlightMessage, gone: Option<PeerAddr>)
    ensures
        final(actions).deep_view() == old(actions).deep_view() + notice(flight.deep_view(), gone),
{
    let told = match gone {
        Some(addr) => addr != flight.waiter,
        None => true,
    };
    if flight.continuation == Continuation::Deliver && told {
        let error = Error::from_kind(ErrorKind::ServerDisconnected(flight.request.msg_id.clone()));
        let waiter = flight.waiter;
        let envelope = flight.request.into_failed(&error);
        push_rpc_action(actions, RpcAction::Send { target: waiter, envelope });
        assert(final(actions).deep_view() =~= old(actions).deep_view() + notice(
            flight.deep_view(),
            gone,
        ));
    } else {
        assert(final(actions).deep_view() =~= old(actions).deep_view() + notice(
            flight.deep_view(),
            gone,
        ));
    }
}

/// The RPC server: the dispatcher of the methods, the tracker of the
/// connections and the table of the calls in flight, with the services
/// linked into it. It decides; its caller owns the sockets, the queues and
/// the signals, and carries out the [`RpcAction`]s it is handed.
pub struct RpcServer {
    dispatcher: Dispatcher,
    clients: ClientTracker,
    router: MessageRouter,
    experiments: ExperimentalService,
    fortunes: FortuneService,
    registration: RegistrationService,
}

impl View for RpcServer {
    type V = ServerView;

    closed spec fn view(&self) -> ServerView {
        ServerView { registry: self.dispatcher@, clients: self.clients@, router: self.router@ }
    }
}

/// The methods of the linked services, in the order in which the services
/// register them.
pub open spec fn linked_endpoints() -> Seq<(Seq<char>, Handle)> {
    seq![
        ("num_active_connections"@, Handle::Local(LocalRpc::NumActiveConnections)),
        ("tell_fortune"@, Handle::Local(LocalRpc::TellFortune)),
        ("fake_fortune"@, Handle::Local(LocalRpc::FakeFortune)),
        ("deaf_fortune"@, Handle::Local(LocalRpc::DeafFortune)),
        ("ask_for_more_wishes"@, Handle::Local(LocalRpc::AskForMoreWishes)),
        ("register_app"@, Handle::Local(LocalRpc::RegisterApp)),
    ]
}

/// Endpoints whose names differ from each other and from every registered
/// name are all registered, in their order.
pub proof fn lemma_install_fresh(registry: RegistryView, endpoints: Seq<(Seq<char>, Handle)>)
    requires
        registry.wf(),
        forall|i: int, j: int| 0 <= i < j < endpoints.len() ==> endpoints[i].0 != endpoints[j].0,
        forall|i: int, k: int|
            0 <= i < endpoints.len() && 0 <= k < registry.entries.len() ==> endpoints[i].0
                != registry.entries[k].0,
    ensures
        registry.install(endpoints) == (RegistryView { entries: registry.entries + endpoints }),
        registry.collision(endpoints) is None,
        registry.install(endpoints).wf(),
    decreases endpoints.len(),
{
    if endpoints.len() == 0 {
        assert(registry.entries + endpoints =~= registry.entries);
    } else {
        let name = endpoints[0].0;
        assert forall|k: int| 0 <= k < registry.names().len() implies registry.names()[k] != name by {
            assert(registry.names()[k] == registry.entries[k].0);
        }
        lemma_missing(registry.names(), name);
        let next = registry.registered(name, endpoints[0].1);
        lemma_registered(registry, name, endpoints[0].1);
        let rest = endpoints.drop_first();
        assert forall|i: int, k: int|
            0 <= i < rest.len() && 0 <= k < next.entries.len() implies rest[i].0
            != next.entries[k].0 by {
            assert(rest[i] == endpoints[i + 1]);
        }
        lemma_install_fresh(next, rest);
        assert(next.entries + rest =~= registry.entries + endpoints);
    }
}

/// No two of the linked methods share a name.
proof fn lemma_linked_names_differ()
    ensures
        forall|i: int, j: int|
            0 <= i < j < linked_endpoints().len() ==> linked_endpoints()[i].0
                != linked_endpoints()[j].0,
{
    reveal_strlit("num_active_connections");
    reveal_strlit("tell_fortune");
    reveal_strlit("fake_fortune");
    reveal_strlit("deaf_fortune");
    reveal_strlit("ask_for_more_wishes");
    reveal_strlit("register_app");
    let names = linked_endpoints();
    assert(names[0].0.len() == 22);
    assert(names[4].0.len() == 19);
    assert(names[1].0.len() == 12 && names[1].0[0] == 't');
    assert(names[2].0.len() == 12 && names[2].0[0] == 'f');
    assert(names[3].0.len() == 12 && names[3].0[0] == 'd');
    assert(names[5].0.len() == 12 && names[5].0[0] == 'r');
}

impl RpcServer {
    pub open spec fn wf(&self) -> bool {
        self@.wf()
    }

    /// A server with the methods of the experimental, the fortune and the
    /// registration service, without connections and without calls in
    /// flight.
    pub fn new() -> (r: RpcServer)
        ensures
            r.wf(),
            r@.registry.entries == linked_endpoints(),
            r@.clients.clients.len() == 0,
            r@.router.flights.len() == 0,
    {
        let mut dispatcher = Dispatcher::new();
        let experiments = ExperimentalService::new();
        let fortunes = FortuneService::new();
        let registration = RegistrationService::new();
        proof {
            lemma_linked_names_differ();
            let all = linked_endpoints();
            let first = crate::experimental_service::experimental_endpoints();
            let second = crate::fortune_service::fortune_endpoints();
            let third = crate::registration_service::registration_endpoints();
            assert(first =~= all.subrange(0, 1));
            assert(second =~= all.subrange(1, 5));
            assert(third =~= all.subrange(5, 6));
            let empty = dispatcher@;
            assert(empty.names() =~= Seq::<Seq<char>>::empty());
            lemma_install_fresh(empty, first);
            let one = empty.install(first);
            assert(one.entries =~= all.subrange(0, 1));
            lemma_install_fresh(one, second);
            let two = one.install(second);
            assert(two.entries =~= all.subrange(0, 5));
            lemma_install_fresh(two, third);
            assert(two.install(third).entries =~= all);
        }
        match experiments.register_endpoints(&mut dispatcher) {
            Err(_) => {
                return vstd::pervasive::unreached();
            },
            Ok(_) => {},
        }
        match fortunes.register_endpoints(&mut dispatcher) {
            Err(_) => {
                return vstd::pervasive::unreached();
            },
            Ok(_) => {},
        }
        match registration.register_endpoints(&mut dispatcher) {
            Err(_) => {
                return vstd::pervasive::unreached();
            },
            Ok(_) => {},
        }
        RpcServer {
            dispatcher,
            clients: ClientTracker::new(),
            router: MessageRouter::new(),
            experiments,
            fortunes,
            registration,
        }
    }

    /// What `name` stands for.
    pub fn lookup(&self, name: &str) -> (r: Option<Handle>)
        ensures
            r == self@.registry.lookup(name@),
    {
        self.dispatcher.lookup(name)
    }

    /// Whether a client is tracked at `addr`.
    pub fn is_connected(&self, addr: PeerAddr) -> (r: bool)
        ensures
            r == self@.clients.contains(addr),
    {
        self.clients.is_connected(addr)
    }

    /// How many calls are in flight.
    pub fn in_flight(&self) -> (r: usize)
        ensures
            r == self@.router.flights.len(),
    {
        self.router.len()
    }

    /// Tracks the peer that has connected from `addr`. Fails, and changes
    /// nothing, where a client is tracked at that address.
    pub fn connect(&mut self, addr: PeerAddr) -> (r: Result<(), RegistryError>)
        requires
            old(self).wf(),
        ensures
            final(self).wf(),
            final(self)@ == (ServerView {
                clients: old(self)@.clients.connected(addr),
                ..old(self)@
            }),
            r is Err <==> old(self)@.clients.contains(addr),
    {
        self.clients.connect_client(addr)
    }

    /// Calls the method `rpc` of a linked service.
    pub fn call_local(&mut self, rpc: LocalRpc, caller: PeerAddr, args: &Json) -> (r: Result<
        Option<Json>,
        Error,
    >)
        requires
            old(self).wf(),
        ensures
            final(self).wf(),
            (final(self)@, outcome_view(r)) == old(self)@.local(rpc, caller, args.deep_view()),
    {
        match rpc {
            LocalRpc::NumActiveConnections => self.experiments.num_active_connections(),
            LocalRpc::TellFortune => self.fortunes.tell_fortune(args),
            LocalRpc::FakeFortune => self.fortunes.fake_fortune(),
            LocalRpc::DeafFortune => self.fortunes.deaf_fortune(args),
            LocalRpc::AskForMoreWishes => self.fortunes.ask_for_more_wishes(),
            LocalRpc::RegisterApp => self.registration.register_app(
                &mut self.dispatcher,
                &mut self.clients,
                caller,
                args,
            ),
        }
    }

    /// Serves the call `msg` of `peer`.
    pub fn handle_call(&mut self, msg: Message, peer: PeerAddr) -> (r: Vec<RpcAction>)
        requires
            old(self).wf(),
        ensures
            final(self).wf(),
            (final(self)@, r.deep_view()) == old(self)@.call(msg.deep_view(), peer),
    {
        match self.dispatcher.dispatch(&msg) {
            Err(error) => send_to(peer, Some(msg.into_failed(&error))),
            Ok(Handle::Local(rpc)) => {
                let outcome = self.call_local(rpc, peer, &msg.args);
                send_to(peer, Dispatcher::respond(msg, outcome))
            },
            Ok(Handle::Forward(server)) => {
                if !self.clients.is_connected(server) {
                    let error = Error::unreachable("Receiving end for server ", server, " dropped");
                    send_to(peer, Some(msg.into_failed(&error)))
                } else {
                    let mut actions = no_rpc_actions();
                    push_rpc_action(
                        &mut actions,
                        RpcAction::Send { target: server, envelope: msg.clone() },
                    );
                    let ghost first = actions.deep_view();
                    assert(first =~= seq![
                        RpcActionView::Send { target: server, envelope: msg.deep_view() },
                    ]);
                    match self.router.wait_for_message(msg, peer, server) {
                        Some(displaced) => {
                            push_notice(&mut actions, displaced, None);
                        },
                        None => {
                            assert(actions.deep_view() =~= first + Seq::<RpcActionView>::empty());
                        },
                    }
                    actions
                }
            },
        }
    }

    /// Passes the response `msg` that `peer` has sent on to the peer that
    /// waits for it.
    pub fn handle_answer(&mut self, msg: Message, peer: PeerAddr) -> (r: Vec<RpcAction>)
        requires
            old(self).wf(),
        ensures
            final(self).wf(),
            (final(self)@, r.deep_view()) == old(self)@.answer(msg.deep_view(), peer),
    {
        match self.router.forward_message(&msg.msg_id) {
            Some(flight) => {
                let mut actions = no_rpc_actions();
                if flight.continuation == Continuation::Deliver {
                    let mut envelope = flight.request;
                    envelope.resp = msg.resp;
                    push_rpc_action(
                        &mut actions,
                        RpcAction::Send { target: flight.waiter, envelope },
                    );
                    assert(actions.deep_view() =~= old(self)@.answer(msg.deep_view(), peer).1);
                }
                actions
            },
            None => {
                let error = Error::from_kind(ErrorKind::UnexpectedResponse(msg.msg_id.clone()));
                send_to(peer, Some(msg.into_failed(&error)))
            },
        }
    }

    /// Handles one envelope read from the connection of `peer`: a response
    /// goes to the peer that waits for it, a call to the method it names.
    pub fn handle_message(&mut self, msg: Message, peer: PeerAddr) -> (r: Vec<RpcAction>)
        requires
            old(self).wf(),
        ensures
            final(self).wf(),
            (final(self)@, r.deep_view()) == old(self)@.handle(msg.deep_view(), peer),
    {
        if msg.is_response() {
            self.handle_answer(msg, peer)
        } else {
            self.handle_call(msg, peer)
        }
    }

    /// Ends the connection of `peer`: it leaves the tracker, the methods
    /// that it registered leave the registry, the calls that it was to
    /// answer are answered with an error, and the responses to its own
    /// calls will be thrown away.
    pub fn disconnect(&mut self, peer: PeerAddr) -> (r: Vec<RpcAction>)
        requires
            old(self).wf(),
        ensures
            final(self).wf(),
            (final(self)@, r.deep_view()) == old(self)@.disconnected(peer),
    {
        let mut actions = no_rpc_actions();
        let departure = self.clients.drop_client(peer, &mut self.dispatcher);
        if departure.fire_close {
            push_rpc_action(&mut actions, RpcAction::Close { target: peer });
        }
        let ghost head = actions.deep_view();
        let mut gone = self.router.drop_client(peer);
        let ghost all = gone.deep_view();
        // The flights are handed over from the end, so that each can be
        // taken out of the list without moving the others.
        let mut tail: Vec<RpcAction> = no_rpc_actions();
        let ghost total = gone.len();
        proof {
            assert(all.subrange(0, all.len() as int) =~= all);
            assert(notices(all, Some(peer)) + Seq::<RpcActionView>::empty() =~= notices(
                all,
                Some(peer),
            ));
        }
        while gone.len() > 0
            invariant
                gone.len() <= total,
                total == all.len(),
                gone.deep_view() == all.subrange(0, gone.len() as int),
                notices(all.subrange(0, gone.len() as int), Some(peer)) + tail.deep_view()
                    == notices(all, Some(peer)),
            decreases gone.len(),
        {
            let ghost n = gone.len() as int;
            let ghost before = tail.deep_view();
            let flight = gone.pop().unwrap();
            assert(flight.deep_view() == all[n - 1]);
            assert(gone.deep_view() =~= all.subrange(0, n - 1));
            assert(all.subrange(0, n).drop_last() =~= all.subrange(0, n - 1));
            assert(all.subrange(0, n).last() == all[n - 1]);
            let mut one = no_rpc_actions();
            push_notice(&mut one, flight, Some(peer));
            assert(one.deep_view() =~= notice(all[n - 1], Some(peer)));
            one.append(&mut tail);
            tail = one;
            assert(tail.deep_view() =~= notice(all[n - 1], Some(peer)) + before);
            assert(notices(all.subrange(0, n - 1), Some(peer)) + (notice(all[n - 1], Some(peer))
                + before) =~= (notices(all.subrange(0, n - 1), Some(peer)) + notice(
                all[n - 1],
                Some(peer),
            )) + before);
        }
        proof {
            assert(all.subrange(0, 0) =~= Seq::<FlightView>::empty());
            assert(Seq::<RpcActionView>::empty() + tail.deep_view() =~= tail.deep_view());
        }
        let ghost tail_view = tail.deep_view();
        actions.append(&mut tail);
        assert(actions.deep_view() =~= head + tail_view);
        actions
    }
}

} // verus!
