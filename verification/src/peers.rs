use vstd::prelude::*;

use crate::addr::PeerAddr;

verus! {

/// Where a peer stands between its connection and its removal. A peer that
/// has been removed has no state: it is gone from the registry.
#[derive(Clone, Copy, Debug, PartialEq, Eq, Structural)]
pub enum PeerState {
    /// Accepted, no identity claimed yet.
    Connected,
    /// Has claimed an identity or registered methods.
    Handshook,
    /// Its close signal has been fired.
    Closing,
}

/// What the registry knows of one peer.
pub ghost struct PeerView {
    pub addr: PeerAddr,
    pub role: Seq<char>,
    pub uuid: Seq<char>,
    pub handles: Seq<Seq<char>>,
    pub state: PeerState,
    pub manager: bool,
}

/// A choice of peers. The manager's own entry is in none of them.
pub ghost enum Filter {
    /// Every peer.
    Live,
    /// The peers that claim this role. Nobody claims the empty role.
    Role(Seq<char>),
    /// The peers whose close signal has not been fired.
    Open,
}

/// What singles out one peer.
pub ghost enum Key {
    /// The entry under this address, the manager's own included.
    Addr(PeerAddr),
    /// The peer that claims this uuid. Nobody claims the empty uuid.
    Uuid(Seq<char>),
}

impl PeerView {
    /// A peer that has just connected from `addr`.
    pub open spec fn connected(addr: PeerAddr) -> PeerView {
        PeerView {
            addr,
            role: Seq::empty(),
            uuid: Seq::empty(),
            handles: Seq::empty(),
            state: PeerState::Connected,
            manager: false,
        }
    }

    /// The manager's own entry: the role `manager` at the unspecified address.
    pub open spec fn manager_self() -> PeerView {
        PeerView {
            addr: PeerAddr::unspecified(),
            role: "manager"@,
            uuid: Seq::empty(),
            handles: Seq::empty(),
            state: PeerState::Connected,
            manager: true,
        }
    }

    /// Whether the peer is among those that `filter` chooses.
    pub open spec fn passes(self, filter: Filter) -> bool {
        !self.manager && match filter {
            Filter::Live => true,
            Filter::Role(role) => role.len() > 0 && self.role == role,
            Filter::Open => self.state != PeerState::Closing,
        }
    }

    /// Whether `key` singles out this peer.
    pub open spec fn keyed(self, key: Key) -> bool {
        match key {
            Key::Addr(addr) => self.addr == addr,
            Key::Uuid(uuid) => !self.manager && uuid.len() > 0 && self.uuid == uuid,
        }
    }

    /// The peer after a handshake: a uuid or a role that the handshake names
    /// replaces the one held, the handles join those held, and a peer that
    /// is not closing has handshaken.
    pub open spec fn identified(
        self,
        uuid: Option<Seq<char>>,
        role: Option<Seq<char>>,
        handles: Seq<Seq<char>>,
    ) -> PeerView {
        PeerView {
            uuid: match uuid {
                Some(u) => u,
                None => self.uuid,
            },
            role: match role {
                Some(r) => r,
                None => self.role,
            },
            handles: self.handles + handles,
            state: if self.state == PeerState::Closing {
                PeerState::Closing
            } else {
                PeerState::Handshook
            },
            ..self
        }
    }

    /// The peer once its close signal has been fired. The manager's own
    /// entry has no such signal and stays as it is.
    pub open spec fn closing(self) -> PeerView {
        if self.manager {
            self
        } else {
            PeerView { state: PeerState::Closing, ..self }
        }
    }
}

/// The addresses of the peers that `filter` chooses, in the order in which
/// they connected.
pub open spec fn addrs_where(peers: Seq<PeerView>, filter: Filter) -> Seq<PeerAddr>
    decreases peers.len(),
{
    if peers.len() == 0 {
        Seq::empty()
    } else {
        let before = addrs_where(peers.drop_last(), filter);
        if peers.last().passes(filter) {
            before.push(peers.last().addr)
        } else {
            before
        }
    }
}

/// The place of the first peer that `key` singles out.
pub open spec fn first_keyed(peers: Seq<PeerView>, key: Key) -> Option<int>
    decreases peers.len(),
{
    if peers.len() == 0 {
        None
    } else if peers[0].keyed(key) {
        Some(0)
    } else {
        match first_keyed(peers.subrange(1, peers.len() as int), key) {
            Some(i) => Some(i + 1),
            None => None,
        }
    }
}

/// No two entries share an address.
pub open spec fn distinct_addrs(peers: Seq<PeerView>) -> bool {
    forall|i: int, j: int| 0 <= i < j < peers.len() ==> peers[i].addr != peers[j].addr
}

/// `first_keyed` gives the first place that the key singles out, and none
/// exactly where the key singles out nobody.
pub proof fn lemma_first_keyed(peers: Seq<PeerView>, key: Key)
    ensures
        match first_keyed(peers, key) {
            Some(i) => {
                &&& 0 <= i < peers.len()
                &&& peers[i].keyed(key)
                &&& forall|j: int| 0 <= j < i ==> !peers[j].keyed(key)
            },
            None => forall|j: int| 0 <= j < peers.len() ==> !peers[j].keyed(key),
        },
    decreases peers.len(),
{
    if peers.len() == 0 {
    } else if peers[0].keyed(key) {
    } else {
        let rest = peers.subrange(1, peers.len() as int);
        lemma_first_keyed(rest, key);
        assert(forall|j: int| 0 <= j < rest.len() ==> rest[j] == peers[j + 1]);
        match first_keyed(rest, key) {
            Some(i) => {
                assert forall|j: int| 0 <= j < i + 1 implies !peers[j].keyed(key) by {
                    if j > 0 {
                        assert(!rest[j - 1].keyed(key));
                    }
                }
            },
            None => {
                assert forall|j: int| 0 <= j < peers.len() implies !peers[j].keyed(key) by {
                    if j > 0 {
                        assert(!rest[j - 1].keyed(key));
                    }
                }
            },
        }
    }
}

/// A place that the key singles out, with no such place before it, is what
/// `first_keyed` gives.
pub proof fn lemma_first_keyed_is(peers: Seq<PeerView>, key: Key, i: int)
    requires
        0 <= i < peers.len(),
        peers[i].keyed(key),
        forall|j: int| 0 <= j < i ==> !peers[j].keyed(key),
    ensures
        first_keyed(peers, key) == Some(i),
{
    lemma_first_keyed(peers, key);
}

/// Where the key singles out nobody, `first_keyed` gives nothing.
pub proof fn lemma_first_keyed_none(peers: Seq<PeerView>, key: Key)
    requires
        forall|j: int| 0 <= j < peers.len() ==> !peers[j].keyed(key),
    ensures
        first_keyed(peers, key) is None,
{
    lemma_first_keyed(peers, key);
}

/// Every address that `addrs_where` gives is the address of an entry that
/// the filter chooses.
pub proof fn lemma_addrs_where_sound(peers: Seq<PeerView>, filter: Filter, k: int)
    requires
        0 <= k < addrs_where(peers, filter).len(),
    ensures
        exists|i: int|
            0 <= i < peers.len() && #[trigger] peers[i].passes(filter) && peers[i].addr
                == addrs_where(peers, filter)[k],
    decreases peers.len(),
{
    if peers.len() == 0 {
    } else {
        let before = addrs_where(peers.drop_last(), filter);
        if k < before.len() {
            lemma_addrs_where_sound(peers.drop_last(), filter, k);
            let i = choose|i: int|
                0 <= i < peers.drop_last().len() && #[trigger] peers.drop_last()[i].passes(filter)
                    && peers.drop_last()[i].addr == before[k];
            assert(peers[i].passes(filter));
        } else {
            assert(peers[peers.len() - 1].passes(filter));
        }
    }
}

/// The address of every entry that the filter chooses is among those that
/// `addrs_where` gives.
pub proof fn lemma_addrs_where_complete(peers: Seq<PeerView>, filter: Filter, i: int)
    requires
        0 <= i < peers.len(),
        peers[i].passes(filter),
    ensures
        addrs_where(peers, filter).contains(peers[i].addr),
    decreases peers.len(),
{
    let before = addrs_where(peers.drop_last(), filter);
    if i == peers.len() - 1 {
        let all = before.push(peers.last().addr);
        assert(all[all.len() - 1] == peers[i].addr);
    } else {
        lemma_addrs_where_complete(peers.drop_last(), filter, i);
        let k = choose|k: int| 0 <= k < before.len() && before[k] == peers[i].addr;
        assert(addrs_where(peers, filter)[k] == peers[i].addr);
    }
}

} // verus!
