use vstd::prelude::*;

use crate::addr::PeerAddr;
use crate::device::RegistryError;
use crate::peers::PeerState;
use crate::rpc::dispatch::RegistryView;
use crate::rpc::service::Registry;
use crate::tables::{lemma_found, lemma_missing, lemma_push_unique, lemma_remove_unique};

verus! {

/// What is done once when a client leaves.
#[derive(Debug, PartialEq, Eq)]
pub enum ExitCallback {
    /// Take these method names out of the registry.
    Unregister(Vec<String>),
}

impl DeepView for ExitCallback {
    type V = Seq<Seq<char>>;

    /// The names that the callback takes out.
    open spec fn deep_view(&self) -> Seq<Seq<char>> {
        match self {
            ExitCallback::Unregister(names) => names.deep_view(),
        }
    }
}

/// One connection to the manager.
pub ghost struct ClientView {
    pub state: PeerState,
    pub callbacks: Seq<Seq<Seq<char>>>,
}

/// The registry after each of `callbacks` has taken its names out, in
/// their order.
pub open spec fn after_exit(registry: RegistryView, callbacks: Seq<Seq<Seq<char>>>) -> RegistryView
    decreases callbacks.len(),
{
    if callbacks.len() == 0 {
        registry
    } else {
        after_exit(registry.release(callbacks[0]), callbacks.drop_first())
    }
}

/// One connection to the manager: where it stands, and what is to be done
/// when it leaves.
#[derive(Debug)]
pub struct Client {
    state: PeerState,
    exit_callbacks: Vec<ExitCallback>,
}

impl DeepView for Client {
    type V = ClientView;

    closed spec fn deep_view(&self) -> ClientView {
        ClientView { state: self.state, callbacks: self.exit_callbacks.deep_view() }
    }
}

impl Client {
    /// A client that has just connected.
    pub fn new() -> (r: Client)
        ensures
            r.deep_view() == (ClientView {
                state: PeerState::Connected,
                callbacks: Seq::empty(),
            }),
    {
        let r = Client { state: PeerState::Connected, exit_callbacks: Vec::new() };
        assert(r.exit_callbacks.deep_view() =~= Seq::empty());
        r
    }

    /// Where the client stands.
    pub fn state(&self) -> (r: PeerState)
        ensures
            r == self.deep_view().state,
    {
        self.state
    }

    /// Marks the close signal of the client as fired. Says whether it is to
    /// be fired now: it is fired once, however often this is asked.
    pub fn send_close_signal(&mut self) -> (r: bool)
        ensures
            final(self).deep_view() == (ClientView {
                state: PeerState::Closing,
                ..old(self).deep_view()
            }),
            r == (old(self).deep_view().state != PeerState::Closing),
    {
        let fire = self.state != PeerState::Closing;
        self.state = PeerState::Closing;
        fire
    }

    /// Marks a client that is not closing as one that has handshaken.
    pub fn mark_handshook(&mut self)
        ensures
            final(self).deep_view() == (ClientView {
                state: if old(self).deep_view().state == PeerState::Closing {
                    PeerState::Closing
                } else {
                    PeerState::Handshook
                },
                ..old(self).deep_view()
            }),
    {
        if self.state != PeerState::Closing {
            self.state = PeerState::Handshook;
        }
    }

    /// Adds `callback` to what is done when the client leaves.
    pub fn on_exit(&mut self, callback: ExitCallback)
        ensures
            final(self).deep_view() == (ClientView {
                callbacks: old(self).deep_view().callbacks.push(callback.deep_view()),
                ..old(self).deep_view()
            }),
    {
        self.exit_callbacks.push(callback);
        assert(final(self).exit_callbacks.deep_view() =~= old(self).exit_callbacks.deep_view().push(
            callback.deep_view(),
        ));
    }

    /// Runs every exit callback, in the order in which they were added, and
    /// forgets them: a second run finds none. Gives the number of callbacks
    /// that this run has run.
    pub fn run_exit_callbacks<R: Registry>(&mut self, registry: &mut R) -> (r: usize)
        requires
            old(registry).registry().wf(),
        ensures
            final(registry).registry().wf(),
            final(registry).registry() == after_exit(
                old(registry).registry(),
                old(self).deep_view().callbacks,
            ),
            final(self).deep_view() == (ClientView {
                callbacks: Seq::empty(),
                ..old(self).deep_view()
            }),
            r == old(self).deep_view().callbacks.len(),
    {
        let ghost all = self.deep_view().callbacks;
        let ghost start = registry.registry();
        let mut i: usize = 0;
        assert(all.subrange(0, all.len() as int) =~= all);
        while i < self.exit_callbacks.len()
            invariant
                i <= self.exit_callbacks.len(),
                *self == *old(self),
                all == self.deep_view().callbacks,
                registry.registry().wf(),
                after_exit(registry.registry(), all.subrange(i as int, all.len() as int))
                    == after_exit(start, all),
            decreases self.exit_callbacks.len() - i,
        {
            let ghost rest = all.subrange(i as int, all.len() as int);
            assert(rest[0] == all[i as int]);
            assert(rest.drop_first() =~= all.subrange(i + 1, all.len() as int));
            match &self.exit_callbacks[i] {
                ExitCallback::Unregister(names) => {
                    release_names(registry, names);
                },
            }
            i += 1;
        }
        let run = self.exit_callbacks.len();
        self.exit_callbacks.clear();
        assert(final(self).exit_callbacks.deep_view() =~= Seq::empty());
        run
    }
}

/// Takes each of `names` out of `registry`.
pub fn release_names<R: Registry>(registry: &mut R, names: &Vec<String>)
    requires
        old(registry).registry().wf(),
    ensures
        final(registry).registry().wf(),
        final(registry).registry() == old(registry).registry().release(names.deep_view()),
{
    let ghost all = names.deep_view();
    let ghost start = registry.registry();
    let mut i: usize = 0;
    assert(all.subrange(0, all.len() as int) =~= all);
    while i < names.len()
        invariant
            i <= names.len(),
            all == names.deep_view(),
            registry.registry().wf(),
            registry.registry().release(all.subrange(i as int, all.len() as int)) == start.release(
                all,
            ),
        decreases names.len() - i,
    {
        let ghost rest = all.subrange(i as int, all.len() as int);
        assert(rest[0] == names@[i as int]@);
        assert(rest.drop_first() =~= all.subrange(i + 1, all.len() as int));
        let _ = registry.unregister(names[i].as_str());
        i += 1;
    }
}

/// The connections that the manager tracks, in the order in which they
/// were made.
pub ghost struct TrackerView {
    pub clients: Seq<(PeerAddr, ClientView)>,
}

impl TrackerView {
    /// The addresses of the clients, in the order in which they connected.
    pub open spec fn addrs(self) -> Seq<PeerAddr> {
        Seq::new(self.clients.len(), |i: int| self.clients[i].0)
    }

    /// No two clients share an address.
    pub open spec fn wf(self) -> bool {
        self.addrs().no_duplicates()
    }

    /// The place of the client at `addr`.
    pub open spec fn find(self, addr: PeerAddr) -> Option<int> {
        self.addrs().index_of_first(addr)
    }

    /// Whether a client is tracked at `addr`.
    pub open spec fn contains(self, addr: PeerAddr) -> bool {
        self.find(addr) is Some
    }

    /// The client at `addr`.
    pub open spec fn get(self, addr: PeerAddr) -> Option<ClientView> {
        match self.find(addr) {
            Some(i) => Some(self.clients[i].1),
            None => None,
        }
    }

    /// The tracker with a new client at `addr`; unchanged where the address
    /// is taken.
    pub open spec fn connected(self, addr: PeerAddr) -> TrackerView {
        if self.contains(addr) {
            self
        } else {
            TrackerView {
                clients: self.clients.push(
                    (addr, ClientView { state: PeerState::Connected, callbacks: Seq::empty() }),
                ),
            }
        }
    }

    /// The tracker with `client` in the place of the client at `addr`.
    pub open spec fn with(self, addr: PeerAddr, client: ClientView) -> TrackerView {
        match self.find(addr) {
            Some(i) => TrackerView { clients: self.clients.update(i, (addr, client)) },
            None => self,
        }
    }

    /// The tracker without the client at `addr`.
    pub open spec fn dropped(self, addr: PeerAddr) -> TrackerView {
        match self.find(addr) {
            Some(i) => TrackerView { clients: self.clients.remove(i) },
            None => self,
        }
    }
}

/// Dropping keeps the tracker well formed, and the address is gone after it.
pub proof fn lemma_tracker_dropped(tracker: TrackerView, addr: PeerAddr)
    requires
        tracker.wf(),
    ensures
        tracker.dropped(addr).wf(),
        !tracker.dropped(addr).contains(addr),
        forall|other: PeerAddr|
            other != addr ==> (#[trigger] tracker.dropped(addr).contains(other) <==> tracker.contains(
                other,
            )),
{
    tracker.addrs().index_of_first_ensures(addr);
    match tracker.find(addr) {
        Some(i) => {
            assert(tracker.dropped(addr).addrs() =~= tracker.addrs().remove(i));
            lemma_remove_unique(tracker.addrs(), i);
        },
        None => {},
    }
}

/// What dropping a client has done.
#[derive(Clone, Copy, Debug, PartialEq, Eq, Structural)]
pub struct Departure {
    /// Whether a client was tracked at the address.
    pub known: bool,
    /// Whether its close signal is to be fired now.
    pub fire_close: bool,
    /// How many exit callbacks were run.
    pub callbacks_run: usize,
}

/// The tracker of the connections.
pub struct ClientTracker {
    active_clients: Vec<(PeerAddr, Client)>,
}

impl View for ClientTracker {
    type V = TrackerView;

    closed spec fn view(&self) -> TrackerView {
        TrackerView {
            clients: Seq::new(
                self.active_clients@.len(),
                |i: int| (self.active_clients@[i].0, self.active_clients@[i].1.deep_view()),
            ),
        }
    }
}

impl ClientTracker {
    /// No two clients share an address.
    pub open spec fn wf(&self) -> bool {
        self@.wf()
    }

    /// A tracker without clients.
    pub fn new() -> (r: ClientTracker)
        ensures
            r@.clients == Seq::<(PeerAddr, ClientView)>::empty(),
            r.wf(),
    {
        let r = ClientTracker { active_clients: Vec::new() };
        assert(r@.clients =~= Seq::<(PeerAddr, ClientView)>::empty());
        r
    }

    fn position(&self, addr: PeerAddr) -> (r: Option<usize>)
        ensures
            match r {
                Some(i) => i < self.active_clients.len() && self@.find(addr) == Some(i as int),
                None => self@.find(addr) is None,
            },
    {
        let mut i: usize = 0;
        while i < self.active_clients.len()
            invariant
                i <= self.active_clients.len(),
                forall|j: int| 0 <= j < i ==> self@.addrs()[j] != addr,
            decreases self.active_clients.len() - i,
        {
            if self.active_clients[i].0 == addr {
                proof {
                    lemma_found(self@.addrs(), addr, i as int);
                }
                return Some(i);
            }
            i += 1;
        }
        proof {
            lemma_missing(self@.addrs(), addr);
        }
        None
    }

    /// How many clients are tracked.
    pub fn len(&self) -> (r: usize)
        ensures
            r == self@.clients.len(),
    {
        self.active_clients.len()
    }

    /// Tracks the client that has connected from `addr`. Fails, and changes
    /// nothing, where a client is tracked at that address.
    pub fn connect_client(&mut self, addr: PeerAddr) -> (r: Result<(), RegistryError>)
        requires
            old(self).wf(),
        ensures
            final(self).wf(),
            final(self)@ == old(self)@.connected(addr),
            r is Err <==> old(self)@.contains(addr),
    {
        match self.position(addr) {
            Some(_) => Err(RegistryError::AddressInUse),
            None => {
                proof {
                    lemma_push_unique(self@.addrs(), addr);
                }
                self.active_clients.push((addr, Client::new()));
                assert(final(self)@.clients =~= old(self)@.connected(addr).clients);
                assert(final(self)@.addrs() =~= old(self)@.addrs().push(addr));
                Ok(())
            },
        }
    }

    /// The client at `addr`.
    pub fn get_client(&self, addr: PeerAddr) -> (r: Option<&Client>)
        ensures
            r.deep_view() == self@.get(addr),
    {
        match self.position(addr) {
            Some(i) => Some(&self.active_clients[i].1),
            None => None,
        }
    }

    /// Whether a client is tracked at `addr`.
    pub fn is_connected(&self, addr: PeerAddr) -> (r: bool)
        ensures
            r == self@.contains(addr),
    {
        self.position(addr).is_some()
    }

    /// Notes that the client at `addr` has registered `names`: it has
    /// handshaken, and the names leave the registry when it leaves. Says
    /// whether there is such a client.
    pub fn note_registration(&mut self, addr: PeerAddr, names: Vec<String>) -> (r: bool)
        requires
            old(self).wf(),
        ensures
            final(self).wf(),
            r == old(self)@.contains(addr),
            final(self)@ == (match old(self)@.get(addr) {
                Some(client) => old(self)@.with(
                    addr,
                    ClientView {
                        state: if client.state == PeerState::Closing {
                            PeerState::Closing
                        } else {
                            PeerState::Handshook
                        },
                        callbacks: client.callbacks.push(names.deep_view()),
                    },
                ),
                None => old(self)@,
            }),
    {
        match self.position(addr) {
            Some(i) => {
                proof {
                    self@.addrs().index_of_first_ensures(addr);
                    assert(self@.addrs()[i as int] == self.active_clients@[i as int].0);
                }
                let mut entry = self.active_clients.remove(i);
                assert(entry.0 == addr);
                entry.1.mark_handshook();
                entry.1.on_exit(ExitCallback::Unregister(names));
                self.active_clients.insert(i, entry);
                assert(final(self)@.clients =~= old(self)@.clients.update(
                    i as int,
                    (addr, entry.1.deep_view()),
                ));
                assert(final(self)@.addrs() =~= old(self)@.addrs());
                true
            },
            None => false,
        }
    }

    /// Drops the client at `addr`: it leaves the tracker, its close signal
    /// is fired unless it was before, and its exit callbacks are run, once.
    /// Does nothing where no client is tracked at `addr`.
    pub fn drop_client<R: Registry>(&mut self, addr: PeerAddr, registry: &mut R) -> (r: Departure)
        requires
            old(self).wf(),
            old(registry).registry().wf(),
        ensures
            final(self).wf(),
            final(registry).registry().wf(),
            final(self)@ == old(self)@.dropped(addr),
            match old(self)@.get(addr) {
                Some(client) => {
                    &&& r.known
                    &&& r.fire_close == (client.state != PeerState::Closing)
                    &&& r.callbacks_run == client.callbacks.len()
                    &&& final(registry).registry() == after_exit(
                        old(registry).registry(),
                        client.callbacks,
                    )
                },
                None => {
                    &&& r == (Departure { known: false, fire_close: false, callbacks_run: 0 })
                    &&& final(registry).registry() == old(registry).registry()
                },
            },
    {
        proof {
            lemma_tracker_dropped(self@, addr);
        }
        match self.position(addr) {
            Some(i) => {
                let mut entry = self.active_clients.remove(i);
                assert(final(self)@.clients =~= old(self)@.clients.remove(i as int));
                let fire_close = entry.1.send_close_signal();
                let callbacks_run = entry.1.run_exit_callbacks(registry);
                Departure { known: true, fire_close, callbacks_run }
            },
            None => Departure { known: false, fire_close: false, callbacks_run: 0 },
        }
    }
}

} // verus!
