use vstd::prelude::*;

use crate::addr::{IpAddress, PeerAddr};
use crate::json::{Json, JsonModel, string_items};
use crate::message::{DestView, Message, MessageDest, MessageView};
use crate::peers::{
    addrs_where, distinct_addrs, first_keyed, lemma_first_keyed, lemma_first_keyed_is,
    lemma_first_keyed_none, Filter, Key, PeerState, PeerView,
};
use crate::ident::fresh_msg_id;
use crate::rpc::types::{error_report, ErrorMessage};

verus! {

/// One entry of the registry: a connected app, or the manager itself.
#[derive(Debug)]
pub struct AppConnection {
    addr: PeerAddr,
    role: String,
    uuid: String,
    exported_handles: Vec<String>,
    state: PeerState,
    manager_self_connection: bool,
}

impl DeepView for AppConnection {
    type V = PeerView;

    closed spec fn deep_view(&self) -> PeerView {
        PeerView {
            addr: self.addr,
            role: self.role@,
            uuid: self.uuid@,
            handles: self.exported_handles.deep_view(),
            state: self.state,
            manager: self.manager_self_connection,
        }
    }
}

impl AppConnection {
    /// The entry of an app that has just connected from `addr`.
    pub fn new(addr: PeerAddr) -> (r: AppConnection)
        ensures
            r.deep_view() == PeerView::connected(addr),
    {
        let r = AppConnection {
            addr,
            role: String::new(),
            uuid: String::new(),
            exported_handles: Vec::new(),
            state: PeerState::Connected,
            manager_self_connection: false,
        };
        assert(r.exported_handles.deep_view() =~= Seq::empty());
        r
    }

    /// The manager's own entry.
    pub fn manager() -> (r: AppConnection)
        ensures
            r.deep_view() == PeerView::manager_self(),
    {
        let r = AppConnection {
            addr: PeerAddr { ip: IpAddress::V4(0), port: 0 },
            role: "manager".to_owned(),
            uuid: String::new(),
            exported_handles: Vec::new(),
            state: PeerState::Connected,
            manager_self_connection: true,
        };
        assert(r.exported_handles.deep_view() =~= Seq::empty());
        r
    }

    pub fn get_addr(&self) -> (r: PeerAddr)
        ensures
            r == self.deep_view().addr,
    {
        self.addr
    }

    pub fn get_role(&self) -> (r: &String)
        ensures
            r@ == self.deep_view().role,
    {
        &self.role
    }

    pub fn get_uuid(&self) -> (r: &String)
        ensures
            r@ == self.deep_view().uuid,
    {
        &self.uuid
    }

    /// Where the peer stands.
    pub fn state(&self) -> (r: PeerState)
        ensures
            r == self.deep_view().state,
    {
        self.state
    }

    /// Whether this is the manager's own entry, which has no write queue.
    pub fn is_manager(&self) -> (r: bool)
        ensures
            r == self.deep_view().manager,
    {
        self.manager_self_connection
    }

    /// Whether the app has exported `handle`.
    pub fn can_respond_to_handle(&self, handle: &str) -> (r: bool)
        ensures
            r == self.deep_view().handles.contains(handle@),
    {
        let wanted = handle.to_owned();
        let mut i: usize = 0;
        while i < self.exported_handles.len()
            invariant
                i <= self.exported_handles.len(),
                wanted@ == handle@,
                forall|k: int| 0 <= k < i ==> self.exported_handles@[k]@ != handle@,
            decreases self.exported_handles.len() - i,
        {
            if self.exported_handles[i] == wanted {
                assert(self.deep_view().handles[i as int] == handle@);
                return true;
            }
            i += 1;
        }
        assert forall|k: int| 0 <= k < self.deep_view().handles.len() implies self.deep_view().handles[k]
            != handle@ by {
            assert(self.exported_handles@[k]@ != handle@);
        }
        false
    }
}

/// Why a connection could not be added.
#[derive(Clone, Copy, Debug, PartialEq, Eq, Structural)]
pub enum RegistryError {
    /// The address is already in the registry.
    AddressInUse,
}

/// What a destination resolves to.
#[derive(Debug, PartialEq, Eq)]
pub enum Resolution {
    /// The manager itself: the envelope goes to the local actions.
    Manager,
    /// These peers, in the order in which they connected.
    Peers(Vec<PeerAddr>),
    /// Nobody.
    Unknown,
}

pub ghost enum ResolutionView {
    Manager,
    Peers(Seq<PeerAddr>),
    Unknown,
}

impl View for Resolution {
    type V = ResolutionView;

    open spec fn view(&self) -> ResolutionView {
        match self {
            Resolution::Manager => ResolutionView::Manager,
            Resolution::Peers(targets) => ResolutionView::Peers(targets@),
            Resolution::Unknown => ResolutionView::Unknown,
        }
    }
}

/// What the caller of the manager is asked to do, in the order given.
#[derive(Debug, PartialEq, Eq)]
pub enum Action {
    /// Put `envelope` at the end of the write queue of `target`.
    Send { target: PeerAddr, envelope: Message },
    /// Fire the close signal of `target`.
    Close { target: PeerAddr },
    /// Fire the close signal of the server itself.
    Shutdown,
    /// Ask the search collaborator for `query`, and hand what it finds to
    /// [`DeviceManager::complete_search`] together with `request` and `sender`.
    Search { query: String, request: Message, sender: PeerAddr },
}

pub ghost enum ActionView {
    Send { target: PeerAddr, envelope: MessageView },
    Close { target: PeerAddr },
    Shutdown,
    Search { query: Seq<char>, request: MessageView, sender: PeerAddr },
}

impl DeepView for Action {
    type V = ActionView;

    open spec fn deep_view(&self) -> ActionView {
        match self {
            Action::Send { target, envelope } => ActionView::Send {
                target: *target,
                envelope: envelope.deep_view(),
            },
            Action::Close { target } => ActionView::Close { target: *target },
            Action::Shutdown => ActionView::Shutdown,
            Action::Search { query, request, sender } => ActionView::Search {
                query: query@,
                request: request.deep_view(),
                sender: *sender,
            },
        }
    }
}

/// The handles that a handshake declares: the strings of the array under
/// `registered_handles` in the first argument.
pub open spec fn declared_handles(args: Option<Seq<JsonModel>>) -> Seq<Seq<char>> {
    match args {
        Some(items) => if items.len() > 0 {
            match items[0].get("registered_handles"@) {
                Some(JsonModel::Array(handles)) => string_items(handles),
                _ => Seq::empty(),
            }
        } else {
            Seq::empty()
        },
        None => Seq::empty(),
    }
}

/// The query of a search request: its first argument, which must be a
/// string. Otherwise, what the request is refused with.
pub open spec fn search_query(args: Option<Seq<JsonModel>>) -> Result<Seq<char>, Seq<char>> {
    match args {
        None => Err("No arguments provided to manager search query"@),
        Some(items) => if items.len() > 0 && items[0] is Str {
            Ok(items[0]->Str_0)
        } else {
            Err("Search expects arg[0] having type `String`"@)
        },
    }
}

/// One `Send` of `envelope` for each of `targets`, in their order.
pub open spec fn copies(targets: Seq<PeerAddr>, envelope: MessageView) -> Seq<ActionView> {
    Seq::new(targets.len(), |i: int| ActionView::Send { target: targets[i], envelope })
}

/// One `Close` for each of `targets`, in their order.
pub open spec fn closes(targets: Seq<PeerAddr>) -> Seq<ActionView> {
    Seq::new(targets.len(), |i: int| ActionView::Close { target: targets[i] })
}

/// The state of the manager: the registry in the order in which the peers
/// connected, the public address of the device, and whether the server's
/// own close signal has been fired.
pub ghost struct ManagerView {
    pub peers: Seq<PeerView>,
    pub device: Seq<char>,
    pub cancelled: bool,
}

impl ManagerView {
    /// No two entries of the registry share an address.
    pub open spec fn wf(self) -> bool {
        distinct_addrs(self.peers)
    }

    /// The manager before anybody has connected: only its own entry.
    pub open spec fn initial(device: Seq<char>) -> ManagerView {
        ManagerView { peers: seq![PeerView::manager_self()], device, cancelled: false }
    }

    /// The place of the entry under `addr`.
    pub open spec fn find(self, addr: PeerAddr) -> Option<int> {
        first_keyed(self.peers, Key::Addr(addr))
    }

    /// Whether the registry has an entry under `addr`.
    pub open spec fn contains(self, addr: PeerAddr) -> bool {
        self.find(addr) is Some
    }

    /// Whether `addr` is a registered peer with a write queue: any entry but
    /// the manager's own.
    pub open spec fn writable(self, addr: PeerAddr) -> bool {
        match self.find(addr) {
            Some(i) => !self.peers[i].manager,
            None => false,
        }
    }

    /// The secondary index by role: the peers that claim `role`.
    pub open spec fn role_index(self, role: Seq<char>) -> Seq<PeerAddr> {
        addrs_where(self.peers, Filter::Role(role))
    }

    /// The secondary index by uuid: the first peer that claims `uuid`.
    pub open spec fn uuid_index(self, uuid: Seq<char>) -> Option<PeerAddr> {
        match first_keyed(self.peers, Key::Uuid(uuid)) {
            Some(i) => Some(self.peers[i].addr),
            None => None,
        }
    }

    /// Every registered peer; the manager itself is not among them.
    pub open spec fn everyone(self) -> Seq<PeerAddr> {
        addrs_where(self.peers, Filter::Live)
    }

    /// Whom `dest` names. In this order: a broadcast names every peer; a
    /// known uuid names the peer that claims it; the roles `manager` and
    /// `device` name the manager; a role that somebody claims names those
    /// who claim it; a destination with neither uuid nor role names the
    /// manager; anything else names nobody.
    pub open spec fn resolve(self, dest: DestView) -> ResolutionView {
        if dest.broadcast == Some(true) {
            ResolutionView::Peers(self.everyone())
        } else if dest.uuid is Some && self.uuid_index(dest.uuid->Some_0) is Some {
            ResolutionView::Peers(seq![self.uuid_index(dest.uuid->Some_0)->Some_0])
        } else if dest.role is Some && (dest.role->Some_0 == "manager"@ || dest.role->Some_0
            == "device"@) {
            ResolutionView::Manager
        } else if dest.role is Some && self.role_index(dest.role->Some_0).len() > 0 {
            ResolutionView::Peers(self.role_index(dest.role->Some_0))
        } else if dest.role is None && dest.uuid is None {
            ResolutionView::Manager
        } else {
            ResolutionView::Unknown
        }
    }

    /// The registry with a new peer at `addr`; unchanged where the address
    /// is taken.
    pub open spec fn connected(self, addr: PeerAddr) -> ManagerView {
        if self.contains(addr) {
            self
        } else {
            ManagerView { peers: self.peers.push(PeerView::connected(addr)), ..self }
        }
    }

    /// The registry after the peer at `addr` has handshaken. Nothing changes
    /// where `addr` is not a registered peer.
    pub open spec fn handshaken(
        self,
        addr: PeerAddr,
        uuid: Option<Seq<char>>,
        role: Option<Seq<char>>,
        handles: Seq<Seq<char>>,
    ) -> ManagerView {
        match self.find(addr) {
            Some(i) => if self.peers[i].manager {
                self
            } else {
                ManagerView {
                    peers: self.peers.update(i, self.peers[i].identified(uuid, role, handles)),
                    ..self
                }
            },
            None => self,
        }
    }

    /// The registry without the entry under `addr`.
    pub open spec fn dropped(self, addr: PeerAddr) -> ManagerView {
        match self.find(addr) {
            Some(i) => ManagerView { peers: self.peers.remove(i), ..self },
            None => self,
        }
    }

    /// What dropping `addr` asks for: its close signal, unless it has been
    /// fired before or there is none.
    pub open spec fn drop_actions(self, addr: PeerAddr) -> Seq<ActionView> {
        match self.find(addr) {
            Some(i) => if self.peers[i].passes(Filter::Open) {
                seq![ActionView::Close { target: addr }]
            } else {
                Seq::empty()
            },
            None => Seq::empty(),
        }
    }

    /// The manager after `quit`: every peer is closing and the server's own
    /// signal has been fired. Nobody leaves the registry.
    pub open spec fn quitting(self) -> ManagerView {
        ManagerView {
            peers: Seq::new(self.peers.len(), |i: int| self.peers[i].closing()),
            cancelled: true,
            ..self
        }
    }

    /// What `quit` asks for: the close signal of every peer that has not
    /// had it yet, then the server's own, unless that was fired before.
    pub open spec fn quit_actions(self) -> Seq<ActionView> {
        let peers = closes(addrs_where(self.peers, Filter::Open));
        if self.cancelled {
            peers
        } else {
            peers.push(ActionView::Shutdown)
        }
    }

    /// The way back to the peer at `addr`: the envelope turned round, on its
    /// write queue. Nothing where `addr` has no write queue.
    pub open spec fn reply(self, addr: PeerAddr, envelope: MessageView) -> Seq<ActionView> {
        if self.writable(addr) {
            seq![ActionView::Send { target: addr, envelope: envelope.returned() }]
        } else {
            Seq::empty()
        }
    }

    /// The error envelope for `request`, on its way back to `addr`.
    pub open spec fn refuse(self, addr: PeerAddr, request: MessageView, error: Seq<char>) -> Seq<
        ActionView,
    > {
        self.reply(addr, request.failed(error_report(error, Seq::empty())))
    }

    /// The sends that forward `msg`, which came from `addr`, to `targets`.
    /// A broadcast gives every target one copy. Otherwise the first target
    /// gets the envelope, and after it the sender gets the `ack` copy, where
    /// the envelope asks for one and the sender is a registered peer other
    /// than the target.
    pub open spec fn forward(self, msg: MessageView, addr: PeerAddr, targets: Seq<PeerAddr>) -> Seq<
        ActionView,
    > {
        if msg.dest.broadcast == Some(true) {
            copies(targets, msg)
        } else if targets.len() == 0 {
            Seq::empty()
        } else if msg.send_ack && self.writable(addr) && addr != targets[0] {
            seq![
                ActionView::Send { target: targets[0], envelope: msg },
                ActionView::Send { target: addr, envelope: msg.ack() },
            ]
        } else {
            seq![ActionView::Send { target: targets[0], envelope: msg }]
        }
    }

    /// The local actions of the manager on the request `msg` from `addr`.
    pub open spec fn serve(self, msg: MessageView, addr: PeerAddr) -> (ManagerView, Seq<ActionView>) {
        if msg.action == Some("handshake"@) {
            let next = self.handshaken(
                addr,
                msg.sender.uuid,
                msg.sender.role,
                declared_handles(msg.args),
            );
            (next, next.reply(addr, msg))
        } else if msg.action == Some("search"@) {
            match search_query(msg.args) {
                Ok(query) => (
                    self,
                    seq![ActionView::Search { query, request: msg, sender: addr }],
                ),
                Err(error) => (self, self.refuse(addr, msg, error)),
            }
        } else if msg.action == Some("stop"@) {
            (self.dropped(addr), self.drop_actions(addr))
        } else if msg.action == Some("quit"@) {
            (self.quitting(), self.quit_actions())
        } else {
            (self, self.refuse(addr, msg, "unknown action"@))
        }
    }

    /// What the manager does with the envelope `msg` that has entered the
    /// core from `addr`.
    pub open spec fn step(self, msg: MessageView, addr: PeerAddr) -> (ManagerView, Seq<ActionView>) {
        match self.resolve(msg.dest) {
            ResolutionView::Manager => self.serve(msg, addr),
            ResolutionView::Peers(targets) => (self, self.forward(msg, addr, targets)),
            ResolutionView::Unknown => (self, self.refuse(addr, msg, "unknown destination"@)),
        }
    }

    /// What the manager does with the request `msg` as it is read from the
    /// connection at `addr`, where `fresh` is an id that nobody has used.
    pub open spec fn handle(self, msg: MessageView, addr: PeerAddr, fresh: Seq<char>) -> (
        ManagerView,
        Seq<ActionView>,
    ) {
        self.step(msg.identified(fresh).stamped(self.device), addr)
    }

    /// The answer to the search `request` of `sender`, once the collaborator
    /// has found `results`.
    pub open spec fn search_done(
        self,
        request: MessageView,
        results: Seq<Seq<char>>,
        sender: PeerAddr,
    ) -> Seq<ActionView> {
        self.reply(sender, request.answered(JsonModel::strings(results)))
    }
}

/// The manager of one device: the registry of its peers and the router of
/// their envelopes. It decides; its caller owns the sockets, the queues and
/// the signals, and carries out the [`Action`]s it is handed.
pub struct DeviceManager {
    connections: Vec<AppConnection>,
    public_ip: String,
    cancelled: bool,
}

impl View for DeviceManager {
    type V = ManagerView;

    closed spec fn view(&self) -> ManagerView {
        ManagerView {
            peers: self.connections.deep_view(),
            device: self.public_ip@,
            cancelled: self.cancelled,
        }
    }
}

/// A choice of peers, as the manager's own functions name it.
enum PeerFilter<'a> {
    Live,
    Role(&'a String),
    Open,
}

impl<'a> View for PeerFilter<'a> {
    type V = Filter;

    closed spec fn view(&self) -> Filter {
        match self {
            PeerFilter::Live => Filter::Live,
            PeerFilter::Role(role) => Filter::Role(role@),
            PeerFilter::Open => Filter::Open,
        }
    }
}

/// Puts `action` at the end of `actions`.
fn push_action(actions: &mut Vec<Action>, action: Action)
    ensures
        final(actions).deep_view() == old(actions).deep_view().push(action.deep_view()),
{
    actions.push(action);
    assert(final(actions).deep_view() =~= old(actions).deep_view().push(action.deep_view()));
}

/// A list of actions that asks for nothing.
fn no_actions() -> (r: Vec<Action>)
    ensures
        r.deep_view() == Seq::<ActionView>::empty(),
{
    let r: Vec<Action> = Vec::new();
    assert(r.deep_view() =~= Seq::<ActionView>::empty());
    r
}

impl DeviceManager {
    /// No two entries of the registry share an address.
    pub open spec fn wf(&self) -> bool {
        self@.wf()
    }

    /// The manager of the device whose public address is `public_ip`, with
    /// its own entry in the registry and nobody connected.
    pub fn new(public_ip: String) -> (r: DeviceManager)
        ensures
            r@ == ManagerView::initial(public_ip@),
            r.wf(),
    {
        let mut connections: Vec<AppConnection> = Vec::new();
        connections.push(AppConnection::manager());
        let r = DeviceManager { connections, public_ip, cancelled: false };
        assert(r@.peers =~= seq![PeerView::manager_self()]);
        r
    }

    /// The place of the entry under `addr`.
    fn position(&self, addr: PeerAddr) -> (r: Option<usize>)
        ensures
            match r {
                Some(i) => i < self.connections.len() && self@.find(addr) == Some(i as int),
                None => self@.find(addr) is None,
            },
    {
        let mut i: usize = 0;
        while i < self.connections.len()
            invariant
                i <= self.connections.len(),
                forall|j: int| 0 <= j < i ==> !self@.peers[j].keyed(Key::Addr(addr)),
            decreases self.connections.len() - i,
        {
            if self.connections[i].addr == addr {
                proof {
                    lemma_first_keyed_is(self@.peers, Key::Addr(addr), i as int);
                }
                return Some(i);
            }
            i += 1;
        }
        proof {
            lemma_first_keyed_none(self@.peers, Key::Addr(addr));
        }
        None
    }

    /// The place of the first peer that claims `uuid`.
    fn uuid_position(&self, uuid: &String) -> (r: Option<usize>)
        ensures
            match r {
                Some(i) => i < self.connections.len() && first_keyed(self@.peers, Key::Uuid(uuid@))
                    == Some(i as int),
                None => first_keyed(self@.peers, Key::Uuid(uuid@)) is None,
            },
    {
        let named = !uuid.as_str().is_empty();
        let mut i: usize = 0;
        while i < self.connections.len()
            invariant
                i <= self.connections.len(),
                named == (uuid@.len() > 0),
                forall|j: int| 0 <= j < i ==> !self@.peers[j].keyed(Key::Uuid(uuid@)),
            decreases self.connections.len() - i,
        {
            let conn = &self.connections[i];
            if named && !conn.manager_self_connection && conn.uuid == *uuid {
                proof {
                    lemma_first_keyed_is(self@.peers, Key::Uuid(uuid@), i as int);
                }
                return Some(i);
            }
            i += 1;
        }
        proof {
            lemma_first_keyed_none(self@.peers, Key::Uuid(uuid@));
        }
        None
    }

    /// The addresses of the peers that `filter` chooses, in the order in
    /// which they connected.
    fn addrs(&self, filter: &PeerFilter) -> (r: Vec<PeerAddr>)
        ensures
            r@ == addrs_where(self@.peers, filter@),
    {
        let mut found: Vec<PeerAddr> = Vec::new();
        let mut i: usize = 0;
        assert(self@.peers.subrange(0, 0) =~= Seq::empty());
        while i < self.connections.len()
            invariant
                i <= self.connections.len(),
                found@ == addrs_where(self@.peers.subrange(0, i as int), filter@),
            decreases self.connections.len() - i,
        {
            let conn = &self.connections[i];
            assert(self@.peers.subrange(0, i + 1).drop_last() =~= self@.peers.subrange(0, i as int));
            assert(self@.peers.subrange(0, i + 1).last() == conn.deep_view());
            let chosen = !conn.manager_self_connection && match filter {
                PeerFilter::Live => true,
                PeerFilter::Role(role) => !role.as_str().is_empty() && conn.role == **role,
                PeerFilter::Open => conn.state != PeerState::Closing,
            };
            if chosen {
                found.push(conn.addr);
            }
            i += 1;
        }
        assert(self@.peers.subrange(0, i as int) =~= self@.peers);
        found
    }

    /// The entry under `addr`, if there is one.
    pub fn get(&self, addr: PeerAddr) -> (r: Option<&AppConnection>)
        ensures
            match self@.find(addr) {
                Some(i) => r is Some && r->Some_0.deep_view() == self@.peers[i],
                None => r is None,
            },
    {
        match self.position(addr) {
            Some(i) => Some(&self.connections[i]),
            None => None,
        }
    }

    /// How many entries the registry holds, the manager's own included.
    pub fn len(&self) -> (r: usize)
        ensures
            r == self@.peers.len(),
    {
        self.connections.len()
    }

    /// Registers the peer that has connected from `addr`. Fails, and changes
    /// nothing, where the address is already registered.
    pub fn add_connection(&mut self, addr: PeerAddr) -> (r: Result<(), RegistryError>)
        requires
            old(self).wf(),
        ensures
            final(self).wf(),
            final(self)@ == old(self)@.connected(addr),
            r is Err <==> old(self)@.contains(addr),
    {
        match self.position(addr) {
            Some(_) => Err(RegistryError::AddressInUse),
            None => {
                proof {
                    lemma_first_keyed(self@.peers, Key::Addr(addr));
                }
                self.connections.push(AppConnection::new(addr));
                assert(final(self)@.peers =~= old(self)@.peers.push(PeerView::connected(addr)));
                Ok(())
            },
        }
    }

    /// Removes the entry under `addr` and asks for its close signal, unless
    /// that has been fired before. Does nothing where there is no such entry.
    pub fn drop_connection(&mut self, addr: PeerAddr) -> (r: Vec<Action>)
        requires
            old(self).wf(),
        ensures
            final(self).wf(),
            final(self)@ == old(self)@.dropped(addr),
            r.deep_view() == old(self)@.drop_actions(addr),
    {
        let mut actions = no_actions();
        match self.position(addr) {
            Some(i) => {
                let conn = self.connections.remove(i);
                assert(final(self)@.peers =~= old(self)@.peers.remove(i as int));
                if !conn.manager_self_connection && conn.state != PeerState::Closing {
                    push_action(&mut actions, Action::Close { target: addr });
                    assert(actions.deep_view() =~= seq![ActionView::Close { target: addr }]);
                }
            },
            None => {},
        }
        actions
    }
}

/// Reads the handles that a handshake declares.
pub fn read_handles(args: &Option<Vec<Json>>) -> (r: Vec<String>)
    ensures
        r.deep_view() == declared_handles(args.deep_view()),
{
    let mut none: Vec<String> = Vec::new();
    assert(none.deep_view() =~= Seq::<Seq<char>>::empty());
    match args {
        Some(items) => {
            if items.len() > 0 {
                assert(items.deep_view()[0] == items@[0].deep_view());
                match items[0].get("registered_handles") {
                    Some(value) => match value.as_array() {
                        Some(handles) => Json::collect_strings(handles),
                        None => none,
                    },
                    None => none,
                }
            } else {
                none
            }
        },
        None => none,
    }
}

/// Reads the query of a search request, or what the request is refused with.
pub fn read_query(args: &Option<Vec<Json>>) -> (r: Result<String, String>)
    ensures
        match search_query(args.deep_view()) {
            Ok(query) => r is Ok && r->Ok_0@ == query,
            Err(error) => r is Err && r->Err_0@ == error,
        },
{
    match args {
        None => Err("No arguments provided to manager search query".to_owned()),
        Some(items) => {
            if items.len() > 0 {
                assert(items.deep_view()[0] == items@[0].deep_view());
                match items[0].as_str() {
                    Some(text) => Ok(text.clone()),
                    None => Err("Search expects arg[0] having type `String`".to_owned()),
                }
            } else {
                Err("Search expects arg[0] having type `String`".to_owned())
            }
        },
    }
}

impl DeviceManager {
    /// Records what the handshake `msg` of the peer at `addr` says of it:
    /// the uuid and the role of its sender, and the handles it declares.
    pub fn handshake(&mut self, msg: &Message, addr: PeerAddr)
        requires
            old(self).wf(),
        ensures
            final(self).wf(),
            final(self)@ == old(self)@.handshaken(
                addr,
                msg.deep_view().sender.uuid,
                msg.deep_view().sender.role,
                declared_handles(msg.deep_view().args),
            ),
    {
        match self.position(addr) {
            Some(i) => {
                if !self.connections[i].manager_self_connection {
                    let mut handles = read_handles(&msg.args);
                    let mut conn = self.connections.remove(i);
                    let ghost before = conn.deep_view();
                    match &msg.sender.uuid {
                        Some(uuid) => {
                            conn.uuid = uuid.clone();
                        },
                        None => {},
                    }
                    match &msg.sender.role {
                        Some(role) => {
                            conn.role = role.clone();
                        },
                        None => {},
                    }
                    let ghost held = conn.exported_handles.deep_view();
                    let ghost added = handles.deep_view();
                    conn.exported_handles.append(&mut handles);
                    assert(conn.exported_handles.deep_view() =~= held + added);
                    if conn.state != PeerState::Closing {
                        conn.state = PeerState::Handshook;
                    }
                    assert(conn.deep_view() == before.identified(
                        msg.deep_view().sender.uuid,
                        msg.deep_view().sender.role,
                        declared_handles(msg.deep_view().args),
                    ));
                    self.connections.insert(i, conn);
                    assert(final(self)@.peers =~= old(self)@.peers.update(
                        i as int,
                        before.identified(
                            msg.deep_view().sender.uuid,
                            msg.deep_view().sender.role,
                            declared_handles(msg.deep_view().args),
                        ),
                    ));
                }
            },
            None => {},
        }
    }

    /// Whom `dest` names.
    pub fn resolve_destination_targets(&self, dest: &MessageDest) -> (r: Resolution)
        ensures
            r@ == self@.resolve(dest.deep_view()),
    {
        let broadcast = match dest.broadcast {
            Some(b) => b,
            None => false,
        };
        if broadcast {
            return Resolution::Peers(self.addrs(&PeerFilter::Live));
        }
        match &dest.uuid {
            Some(uuid) => {
                match self.uuid_position(uuid) {
                    Some(i) => {
                        let mut one: Vec<PeerAddr> = Vec::new();
                        one.push(self.connections[i].addr);
                        assert(one@ =~= seq![self@.uuid_index(uuid@)->Some_0]);
                        return Resolution::Peers(one);
                    },
                    None => {},
                }
            },
            None => {},
        }
        match &dest.role {
            Some(role) => {
                let manager = "manager".to_owned();
                let device = "device".to_owned();
                if *role == manager || *role == device {
                    return Resolution::Manager;
                }
                let found = self.addrs(&PeerFilter::Role(role));
                if found.len() > 0 {
                    Resolution::Peers(found)
                } else {
                    Resolution::Unknown
                }
            },
            None => {
                if dest.uuid.is_none() {
                    Resolution::Manager
                } else {
                    Resolution::Unknown
                }
            },
        }
    }

    /// Whether `addr` is a registered peer with a write queue.
    pub fn resolve_sender(&self, addr: PeerAddr) -> (r: bool)
        ensures
            r == self@.writable(addr),
    {
        match self.position(addr) {
            Some(i) => !self.connections[i].manager_self_connection,
            None => false,
        }
    }

    /// Sends `msg` back to the peer at `addr`, with that peer as its
    /// destination. Asks for nothing where `addr` has no write queue.
    pub fn return_to_sender(&self, msg: Message, addr: PeerAddr) -> (r: Vec<Action>)
        ensures
            r.deep_view() == self@.reply(addr, msg.deep_view()),
    {
        let mut actions = no_actions();
        if self.resolve_sender(addr) {
            push_action(&mut actions, Action::Send { target: addr, envelope: msg.into_returned() });
            assert(actions.deep_view() =~= self@.reply(addr, msg.deep_view()));
        }
        actions
    }

    /// Answers the request `msg` of the peer at `addr` with the error `error`.
    pub fn refuse(&self, msg: Message, addr: PeerAddr, error: String) -> (r: Vec<Action>)
        ensures
            r.deep_view() == self@.refuse(addr, msg.deep_view(), error@),
    {
        let report = ErrorMessage::plain(error).to_json();
        self.return_to_sender(msg.into_failed(report), addr)
    }

    /// Gives each of `targets` its own copy of `msg`.
    pub fn route_broadcast_message(&self, msg: Message, targets: &Vec<PeerAddr>) -> (r: Vec<Action>)
        ensures
            r.deep_view() == copies(targets@, msg.deep_view()),
    {
        let mut actions = no_actions();
        let mut i: usize = 0;
        while i < targets.len()
            invariant
                i <= targets.len(),
                actions.deep_view() == copies(targets@.subrange(0, i as int), msg.deep_view()),
            decreases targets.len() - i,
        {
            let ghost before = actions.deep_view();
            push_action(&mut actions, Action::Send { target: targets[i], envelope: msg.clone() });
            assert(actions.deep_view() =~= copies(
                targets@.subrange(0, i + 1),
                msg.deep_view(),
            ));
            i += 1;
        }
        assert(targets@.subrange(0, i as int) =~= targets@);
        actions
    }

    /// Forwards `msg`, which came from `addr`, to the peers `targets` that
    /// its destination names.
    pub fn route_network_message(&self, msg: Message, addr: PeerAddr, targets: &Vec<PeerAddr>) -> (r:
        Vec<Action>)
        ensures
            r.deep_view() == self@.forward(msg.deep_view(), addr, targets@),
    {
        let broadcast = match msg.dest.broadcast {
            Some(b) => b,
            None => false,
        };
        if broadcast {
            return self.route_broadcast_message(msg, targets);
        }
        let mut actions = no_actions();
        if targets.len() == 0 {
            return actions;
        }
        let target = targets[0];
        if msg.send_ack && self.resolve_sender(addr) && addr != target {
            let ack = msg.clone().into_ack();
            push_action(&mut actions, Action::Send { target, envelope: msg });
            push_action(&mut actions, Action::Send { target: addr, envelope: ack });
            assert(actions.deep_view() =~= self@.forward(msg.deep_view(), addr, targets@));
        } else {
            push_action(&mut actions, Action::Send { target, envelope: msg });
            assert(actions.deep_view() =~= self@.forward(msg.deep_view(), addr, targets@));
        }
        actions
    }

    /// The local action `search`: asks for the search that `msg` names, or
    /// refuses a request that names none.
    pub fn handle_search(&self, msg: Message, addr: PeerAddr) -> (r: Vec<Action>)
        ensures
            r.deep_view() == (match search_query(msg.deep_view().args) {
                Ok(query) => seq![
                    ActionView::Search { query, request: msg.deep_view(), sender: addr },
                ],
                Err(error) => self@.refuse(addr, msg.deep_view(), error),
            }),
    {
        match read_query(&msg.args) {
            Ok(query) => {
                let mut actions = no_actions();
                push_action(&mut actions, Action::Search { query, request: msg, sender: addr });
                assert(actions.deep_view() =~= seq![
                    ActionView::Search { query: query@, request: msg.deep_view(), sender: addr },
                ]);
                actions
            },
            Err(error) => self.refuse(msg, addr, error),
        }
    }

    /// Answers the search `request` of `sender` with what the collaborator
    /// found.
    pub fn complete_search(&self, request: Message, results: &Vec<String>, sender: PeerAddr) -> (r:
        Vec<Action>)
        ensures
            r.deep_view() == self@.search_done(request.deep_view(), results.deep_view(), sender),
    {
        self.return_to_sender(request.into_answered(Json::from_strings(results)), sender)
    }

    /// The local action `stop`: drops the peer that asks for it.
    pub fn handle_stop(&mut self, addr: PeerAddr) -> (r: Vec<Action>)
        requires
            old(self).wf(),
        ensures
            final(self).wf(),
            final(self)@ == old(self)@.dropped(addr),
            r.deep_view() == old(self)@.drop_actions(addr),
    {
        self.drop_connection(addr)
    }

    /// The local action `quit`: asks for the close signal of every peer and
    /// of the server itself. Every peer stays in the registry until its own
    /// connection is dropped.
    pub fn handle_quit(&mut self) -> (r: Vec<Action>)
        requires
            old(self).wf(),
        ensures
            final(self).wf(),
            final(self)@ == old(self)@.quitting(),
            r.deep_view() == old(self)@.quit_actions(),
    {
        let open = self.addrs(&PeerFilter::Open);
        let mut actions = no_actions();
        let mut i: usize = 0;
        while i < open.len()
            invariant
                i <= open.len(),
                actions.deep_view() == closes(open@.subrange(0, i as int)),
            decreases open.len() - i,
        {
            push_action(&mut actions, Action::Close { target: open[i] });
            assert(actions.deep_view() =~= closes(open@.subrange(0, i + 1)));
            i += 1;
        }
        assert(open@.subrange(0, i as int) =~= open@);
        let mut k: usize = 0;
        while k < self.connections.len()
            invariant
                k <= self.connections.len(),
                self.connections.len() == old(self).connections.len(),
                self.public_ip == old(self).public_ip,
                self.cancelled == old(self).cancelled,
                forall|j: int|
                    0 <= j < k ==> self@.peers[j] == (#[trigger] old(self)@.peers[j]).closing(),
                forall|j: int|
                    k <= j < self.connections.len() ==> self@.peers[j] == old(self)@.peers[j],
            decreases self.connections.len() - k,
        {
            let ghost before = self@.peers;
            let mut conn = self.connections.remove(k);
            if !conn.manager_self_connection {
                conn.state = PeerState::Closing;
            }
            self.connections.insert(k, conn);
            assert(self@.peers =~= before.update(k as int, before[k as int].closing()));
            k += 1;
        }
        if !self.cancelled {
            push_action(&mut actions, Action::Shutdown);
        }
        self.cancelled = true;
        assert(final(self)@.peers =~= old(self)@.quitting().peers);
        actions
    }

    /// The local actions of the manager on the request `msg` from `addr`.
    pub fn route_server_message(&mut self, msg: Message, addr: PeerAddr) -> (r: Vec<Action>)
        requires
            old(self).wf(),
        ensures
            final(self).wf(),
            (final(self)@, r.deep_view()) == old(self)@.serve(msg.deep_view(), addr),
    {
        let handshake = "handshake".to_owned();
        let search = "search".to_owned();
        let stop = "stop".to_owned();
        let quit = "quit".to_owned();
        match &msg.action {
            Some(action) => {
                if *action == handshake {
                    self.handshake(&msg, addr);
                    self.return_to_sender(msg, addr)
                } else if *action == search {
                    self.handle_search(msg, addr)
                } else if *action == stop {
                    self.handle_stop(addr)
                } else if *action == quit {
                    self.handle_quit()
                } else {
                    self.refuse(msg, addr, "unknown action".to_owned())
                }
            },
            None => self.refuse(msg, addr, "unknown action".to_owned()),
        }
    }

    /// Routes the envelope `msg` that has entered the core from `addr`: to
    /// the local actions, to the peers it names, or back with an error.
    pub fn route_message(&mut self, msg: Message, addr: PeerAddr) -> (r: Vec<Action>)
        requires
            old(self).wf(),
        ensures
            final(self).wf(),
            (final(self)@, r.deep_view()) == old(self)@.step(msg.deep_view(), addr),
    {
        match self.resolve_destination_targets(&msg.dest) {
            Resolution::Manager => self.route_server_message(msg, addr),
            Resolution::Peers(targets) => self.route_network_message(msg, addr, &targets),
            Resolution::Unknown => self.refuse(msg, addr, "unknown destination".to_owned()),
        }
    }

    /// Takes the request `msg` as it was read from the connection at `addr`:
    /// gives it the id `fresh` if it has none, stamps it with this device's
    /// address, and routes it.
    pub fn receive(&mut self, msg: Message, addr: PeerAddr, fresh: String) -> (r: Vec<Action>)
        requires
            old(self).wf(),
        ensures
            final(self).wf(),
            (final(self)@, r.deep_view()) == old(self)@.handle(msg.deep_view(), addr, fresh@),
    {
        let mut msg = msg;
        msg.identify(fresh);
        let device = self.public_ip.clone();
        msg.stamp(&device);
        self.route_message(msg, addr)
    }

    /// Handles one request read from the connection at `addr`. What is done
    /// is what [`DeviceManager::receive`] does with some newly made id; an
    /// envelope that brings its own id keeps it.
    pub fn handle_request(&mut self, msg: Message, addr: PeerAddr) -> (r: Vec<Action>)
        requires
            old(self).wf(),
        ensures
            final(self).wf(),
            exists|fresh: Seq<char>|
                fresh.len() == 36 && (final(self)@, r.deep_view()) == #[trigger] old(self)@.handle(
                    msg.deep_view(),
                    addr,
                    fresh,
                ),
            msg.deep_view().msg_id.len() > 0 ==> (final(self)@, r.deep_view()) == old(self)@.step(
                msg.deep_view().stamped(old(self)@.device),
                addr,
            ),
    {
        let fresh = fresh_msg_id();
        self.receive(msg, addr, fresh)
    }

    /// Passes an outgoing envelope on to the wire as it is.
    pub fn handle_response(&self, msg: Message, addr: PeerAddr) -> (r: Message)
        ensures
            r == msg,
    {
        msg
    }
}

} // verus!
