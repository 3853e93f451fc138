use vstd::prelude::*;

use crate::addr::PeerAddr;
use crate::rpc::types::{CallView, Message};
use crate::tables::{lemma_found, lemma_missing, lemma_push_unique, lemma_remove_unique};

verus! {

/// What is done with the response once it arrives.
#[derive(Clone, Copy, Debug, PartialEq, Eq, Structural)]
pub enum Continuation {
    /// It is delivered to the waiter.
    Deliver,
    /// It is thrown away: the waiter has left.
    Discard,
}

/// A call that has been forwarded and not answered yet.
#[derive(Debug, PartialEq, Eq)]
pub struct InFlightMessage {
    /// The call as the waiter made it.
    pub request: Message,
    /// The peer that is to answer.
    pub server: PeerAddr,
    /// The peer that made the call.
    pub waiter: PeerAddr,
    pub continuation: Continuation,
}

pub ghost struct FlightView {
    pub request: CallView,
    pub server: PeerAddr,
    pub waiter: PeerAddr,
    pub continuation: Continuation,
}

impl DeepView for InFlightMessage {
    type V = FlightView;

    open spec fn deep_view(&self) -> FlightView {
        FlightView {
            request: self.request.deep_view(),
            server: self.server,
            waiter: self.waiter,
            continuation: self.continuation,
        }
    }
}

impl FlightView {
    /// The flight once its waiter has left.
    pub open spec fn discarded(self) -> FlightView {
        FlightView { continuation: Continuation::Discard, ..self }
    }
}

/// The ids of `flights`, in their order.
pub open spec fn ids_of(flights: Seq<FlightView>) -> Seq<Seq<char>> {
    Seq::new(flights.len(), |i: int| flights[i].request.msg_id)
}

/// What is left of `flights` when `client` leaves: the flights that it was
/// to answer are gone, and those that it waited for are discarded.
pub open spec fn surviving(flights: Seq<FlightView>, client: PeerAddr) -> Seq<FlightView>
    decreases flights.len(),
{
    if flights.len() == 0 {
        Seq::empty()
    } else {
        let before = surviving(flights.drop_last(), client);
        let flight = flights.last();
        if flight.server == client {
            before
        } else if flight.waiter == client {
            before.push(flight.discarded())
        } else {
            before.push(flight)
        }
    }
}

/// The flights that `client` was to answer, in their order.
pub open spec fn lost(flights: Seq<FlightView>, client: PeerAddr) -> Seq<FlightView>
    decreases flights.len(),
{
    if flights.len() == 0 {
        Seq::empty()
    } else {
        let before = lost(flights.drop_last(), client);
        if flights.last().server == client {
            before.push(flights.last())
        } else {
            before
        }
    }
}

/// The in-flight table, in the order in which the calls were forwarded.
pub ghost struct RouterView {
    pub flights: Seq<FlightView>,
}

impl RouterView {
    /// The ids of the calls in flight.
    pub open spec fn ids(self) -> Seq<Seq<char>> {
        ids_of(self.flights)
    }

    /// No id is in flight twice.
    pub open spec fn wf(self) -> bool {
        self.ids().no_duplicates()
    }

    /// The place of the call with this id.
    pub open spec fn find(self, msg_id: Seq<char>) -> Option<int> {
        self.ids().index_of_first(msg_id)
    }

    /// Whether a call with this id is in flight.
    pub open spec fn contains(self, msg_id: Seq<char>) -> bool {
        self.find(msg_id) is Some
    }

    /// The call in flight with this id.
    pub open spec fn get(self, msg_id: Seq<char>) -> Option<FlightView> {
        match self.find(msg_id) {
            Some(i) => Some(self.flights[i]),
            None => None,
        }
    }

    /// The table without the call with this id.
    pub open spec fn removed(self, msg_id: Seq<char>) -> RouterView {
        match self.find(msg_id) {
            Some(i) => RouterView { flights: self.flights.remove(i) },
            None => self,
        }
    }

    /// The table once `waiter` waits for `server` to answer `request`. A
    /// call that was in flight under the same id gives way.
    pub open spec fn waiting(self, request: CallView, waiter: PeerAddr, server: PeerAddr) -> RouterView {
        RouterView {
            flights: self.removed(request.msg_id).flights.push(
                FlightView { request, server, waiter, continuation: Continuation::Deliver },
            ),
        }
    }

    /// The table once `client` has left.
    pub open spec fn dropped(self, client: PeerAddr) -> RouterView {
        RouterView { flights: surviving(self.flights, client) }
    }
}

/// Taking a call out keeps the table well formed; the id is free after it,
/// and every other call is where it was.
pub proof fn lemma_removed(router: RouterView, msg_id: Seq<char>)
    requires
        router.wf(),
    ensures
        router.removed(msg_id).wf(),
        !router.removed(msg_id).contains(msg_id),
        forall|other: Seq<char>|
            other != msg_id ==> #[trigger] router.removed(msg_id).get(other) == router.get(other),
{
    let next = router.removed(msg_id);
    router.ids().index_of_first_ensures(msg_id);
    match router.find(msg_id) {
        Some(i) => {
            assert(next.ids() =~= router.ids().remove(i));
            lemma_remove_unique(router.ids(), i);
            assert forall|other: Seq<char>| other != msg_id implies #[trigger] next.get(other)
                == router.get(other) by {
                next.ids().index_of_first_ensures(other);
                router.ids().index_of_first_ensures(other);
                assert(next.ids().index_of_first(other) is Some <==> router.ids().index_of_first(
                    other,
                ) is Some);
                match router.find(other) {
                    Some(j) => {
                        let j2 = if j < i {
                            j
                        } else {
                            j - 1
                        };
                        assert(next.ids()[j2] == other);
                        assert forall|k: int| 0 <= k < j2 implies next.ids()[k] != other by {
                            let k2 = if k < i {
                                k
                            } else {
                                k + 1
                            };
                            assert(next.ids()[k] == router.ids()[k2]);
                        }
                        lemma_found(next.ids(), other, j2);
                        assert(next.flights[j2] == router.flights[j]);
                    },
                    None => {},
                }
            }
        },
        None => {},
    }
}

/// Waiting keeps the table well formed, and the call is then in flight as
/// it was made.
pub proof fn lemma_waiting(router: RouterView, request: CallView, waiter: PeerAddr, server: PeerAddr)
    requires
        router.wf(),
    ensures
        router.waiting(request, waiter, server).wf(),
        router.waiting(request, waiter, server).get(request.msg_id) == Some(
            FlightView { request, server, waiter, continuation: Continuation::Deliver },
        ),
{
    lemma_removed(router, request.msg_id);
    let mid = router.removed(request.msg_id);
    let next = router.waiting(request, waiter, server);
    assert(next.ids() =~= mid.ids().push(request.msg_id));
    lemma_push_unique(mid.ids(), request.msg_id);
}

/// What is left when `client` leaves is well formed; nothing of it is to be
/// answered by `client`; what `client` waited for is discarded; and no id
/// is in flight that was not before.
pub proof fn lemma_surviving(flights: Seq<FlightView>, client: PeerAddr)
    requires
        ids_of(flights).no_duplicates(),
    ensures
        ids_of(surviving(flights, client)).no_duplicates(),
        forall|k: int|
            0 <= k < surviving(flights, client).len() ==> {
                let flight = #[trigger] surviving(flights, client)[k];
                &&& ids_of(flights).contains(flight.request.msg_id)
                &&& flight.server != client
                &&& (flight.waiter == client ==> flight.continuation == Continuation::Discard)
            },
    decreases flights.len(),
{
    if flights.len() > 0 {
        let front = flights.drop_last();
        let flight = flights.last();
        let before = surviving(front, client);
        assert(ids_of(front) =~= ids_of(flights).drop_last());
        assert forall|a: int, b: int|
            0 <= a < ids_of(front).len() && 0 <= b < ids_of(front).len() && a != b implies ids_of(
            front,
        )[a] != ids_of(front)[b] by {
            assert(ids_of(front)[a] == ids_of(flights)[a]);
            assert(ids_of(front)[b] == ids_of(flights)[b]);
        }
        lemma_surviving(front, client);
        let all = surviving(flights, client);
        assert forall|k: int| 0 <= k < all.len() implies {
            let f = #[trigger] all[k];
            &&& ids_of(flights).contains(f.request.msg_id)
            &&& f.server != client
            &&& (f.waiter == client ==> f.continuation == Continuation::Discard)
        } by {
            if k < before.len() {
                let f = before[k];
                let j = choose|j: int|
                    0 <= j < ids_of(front).len() && ids_of(front)[j] == f.request.msg_id;
                assert(ids_of(flights)[j] == f.request.msg_id);
            } else {
                assert(ids_of(flights)[flights.len() - 1] == flight.request.msg_id);
            }
        }
        if flight.server != client {
            assert(ids_of(all) =~= ids_of(before).push(flight.request.msg_id));
            assert forall|j: int| 0 <= j < ids_of(before).len() implies ids_of(before)[j]
                != flight.request.msg_id by {
                let f = before[j];
                let m = choose|m: int|
                    0 <= m < ids_of(front).len() && ids_of(front)[m] == f.request.msg_id;
                assert(ids_of(flights)[m] == f.request.msg_id);
                assert(ids_of(flights)[flights.len() - 1] == flight.request.msg_id);
            }
            lemma_missing(ids_of(before), flight.request.msg_id);
            lemma_push_unique(ids_of(before), flight.request.msg_id);
        }
    }
}

/// The table of the calls in flight.
pub struct MessageRouter {
    in_flight: Vec<InFlightMessage>,
}

impl View for MessageRouter {
    type V = RouterView;

    closed spec fn view(&self) -> RouterView {
        RouterView { flights: self.in_flight.deep_view() }
    }
}

impl MessageRouter {
    /// No id is in flight twice.
    pub open spec fn wf(&self) -> bool {
        self@.wf()
    }

    /// A table without calls.
    pub fn new() -> (r: MessageRouter)
        ensures
            r@.flights == Seq::<FlightView>::empty(),
            r.wf(),
    {
        let r = MessageRouter { in_flight: Vec::new() };
        assert(r@.flights =~= Seq::<FlightView>::empty());
        r
    }

    fn position(&self, msg_id: &String) -> (r: Option<usize>)
        ensures
            match r {
                Some(i) => i < self.in_flight.len() && self@.find(msg_id@) == Some(i as int),
                None => self@.find(msg_id@) is None,
            },
    {
        let mut i: usize = 0;
        while i < self.in_flight.len()
            invariant
                i <= self.in_flight.len(),
                forall|j: int| 0 <= j < i ==> self@.ids()[j] != msg_id@,
            decreases self.in_flight.len() - i,
        {
            if self.in_flight[i].request.msg_id == *msg_id {
                proof {
                    lemma_found(self@.ids(), msg_id@, i as int);
                }
                return Some(i);
            }
            i += 1;
        }
        proof {
            lemma_missing(self@.ids(), msg_id@);
        }
        None
    }

    /// How many calls are in flight.
    pub fn len(&self) -> (r: usize)
        ensures
            r == self@.flights.len(),
    {
        self.in_flight.len()
    }

    /// Takes the call with the id `msg_id` out of the table and hands it
    /// over, so that its response can go where the call says. `None` where
    /// no such call is in flight.
    pub fn forward_message(&mut self, msg_id: &String) -> (r: Option<InFlightMessage>)
        requires
            old(self).wf(),
        ensures
            final(self).wf(),
            final(self)@ == old(self)@.removed(msg_id@),
            r.deep_view() == old(self)@.get(msg_id@),
    {
        proof {
            lemma_removed(self@, msg_id@);
        }
        match self.position(msg_id) {
            Some(i) => {
                let flight = self.in_flight.remove(i);
                assert(final(self)@.flights =~= old(self)@.flights.remove(i as int));
                Some(flight)
            },
            None => None,
        }
    }

    /// Notes that `from` waits for `to` to answer `request`. Hands over the
    /// call that was in flight under the same id, if there was one: it
    /// gives way, and will not be answered.
    pub fn wait_for_message(&mut self, request: Message, from: PeerAddr, to: PeerAddr) -> (r: Option<
        InFlightMessage,
    >)
        requires
            old(self).wf(),
        ensures
            final(self).wf(),
            final(self)@ == old(self)@.waiting(request.deep_view(), from, to),
            r.deep_view() == old(self)@.get(request.deep_view().msg_id),
    {
        proof {
            lemma_waiting(self@, request.deep_view(), from, to);
        }
        let displaced = self.forward_message(&request.msg_id);
        let ghost mid = self@;
        self.in_flight.push(
            InFlightMessage {
                request,
                server: to,
                waiter: from,
                continuation: Continuation::Deliver,
            },
        );
        assert(final(self)@.flights =~= mid.flights.push(
            FlightView {
                request: request.deep_view(),
                server: to,
                waiter: from,
                continuation: Continuation::Deliver,
            },
        ));
        displaced
    }

    /// Forgets `client`. The calls that it was to answer leave the table
    /// and are handed over, in the order in which they were forwarded: they
    /// will not be answered. The calls that it waited for stay, and their
    /// responses will be thrown away.
    pub fn drop_client(&mut self, client: PeerAddr) -> (r: Vec<InFlightMessage>)
        requires
            old(self).wf(),
        ensures
            final(self).wf(),
            final(self)@ == old(self)@.dropped(client),
            r.deep_view() == lost(old(self)@.flights, client),
    {
        let ghost all = self@.flights;
        let ghost mut done: int = 0;
        let mut gone: Vec<InFlightMessage> = Vec::new();
        let mut i: usize = 0;
        proof {
            lemma_surviving(all, client);
            assert(all.subrange(0, 0) =~= Seq::<FlightView>::empty());
            assert(all.subrange(0, all.len() as int) =~= all);
            assert(gone.deep_view() =~= Seq::<FlightView>::empty());
            assert(self@.flights =~= surviving(all.subrange(0, 0), client) + all.subrange(
                0,
                all.len() as int,
            ));
        }
        while i < self.in_flight.len()
            invariant
                0 <= done <= all.len(),
                i == surviving(all.subrange(0, done), client).len(),
                self@.flights == surviving(all.subrange(0, done), client) + all.subrange(
                    done,
                    all.len() as int,
                ),
                gone.deep_view() == lost(all.subrange(0, done), client),
            decreases all.len() - done,
        {
            let ghost kept = surviving(all.subrange(0, done), client);
            let ghost current = self@.flights;
            assert(current[i as int] == all[done]);
            assert(all.subrange(0, done + 1).drop_last() =~= all.subrange(0, done));
            assert(all.subrange(0, done + 1).last() == all[done]);
            if self.in_flight[i].server == client {
                let flight = self.in_flight.remove(i);
                let ghost taken = gone.deep_view();
                assert(self@.flights =~= current.remove(i as int));
                gone.push(flight);
                proof {
                    assert(gone.deep_view() =~= taken.push(all[done]));
                    assert(current.remove(i as int) =~= kept + all.subrange(
                        done + 1,
                        all.len() as int,
                    ));
                    done = done + 1;
                }
            } else if self.in_flight[i].waiter == client {
                let mut flight = self.in_flight.remove(i);
                assert(flight.deep_view() == all[done]);
                flight.continuation = Continuation::Discard;
                self.in_flight.insert(i, flight);
                assert(self@.flights =~= current.update(i as int, all[done].discarded()));
                proof {
                    assert(current.update(i as int, all[done].discarded()) =~= kept.push(
                        all[done].discarded(),
                    ) + all.subrange(done + 1, all.len() as int));
                    done = done + 1;
                }
                i += 1;
            } else {
                proof {
                    assert(self@.flights =~= kept.push(all[done]) + all.subrange(
                        done + 1,
                        all.len() as int,
                    ));
                    done = done + 1;
                }
                i += 1;
            }
        }
        proof {
            assert(self@.flights.len() == i);
            assert(done == all.len());
            assert(all.subrange(0, done) =~= all);
            assert(self@.flights =~= surviving(all, client));
        }
        gone
    }
}

} // verus!
