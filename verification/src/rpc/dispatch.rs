use vstd::prelude::*;

use crate::addr::PeerAddr;
use crate::errors::{Error, ErrorKind, ErrorView, RegistrationError};
use crate::json::{Json, JsonModel};
use crate::rpc::service::Registry;
use crate::rpc::types::{CallView, Message};
use crate::tables::{lemma_found, lemma_missing, lemma_push_unique, lemma_remove_unique};

verus! {

/// The methods that the services linked into the manager serve.
#[derive(Clone, Copy, Debug, PartialEq, Eq, Structural)]
pub enum LocalRpc {
    NumActiveConnections,
    TellFortune,
    FakeFortune,
    DeafFortune,
    AskForMoreWishes,
    RegisterApp,
}

/// What a registered method name stands for.
#[derive(Clone, Copy, Debug, PartialEq, Eq, Structural)]
pub enum Handle {
    /// A method of a service linked into the manager.
    Local(LocalRpc),
    /// A method that the peer at this address serves: a call is forwarded
    /// to it, and its response is awaited.
    Forward(PeerAddr),
}

/// The method registry: names with what they stand for, in the order of
/// their registration.
pub ghost struct RegistryView {
    pub entries: Seq<(Seq<char>, Handle)>,
}

impl RegistryView {
    /// The registered names, in the order of their registration.
    pub open spec fn names(self) -> Seq<Seq<char>> {
        Seq::new(self.entries.len(), |i: int| self.entries[i].0)
    }

    /// No name is registered twice.
    pub open spec fn wf(self) -> bool {
        self.names().no_duplicates()
    }

    /// The place of `name`.
    pub open spec fn find(self, name: Seq<char>) -> Option<int> {
        self.names().index_of_first(name)
    }

    /// Whether `name` is registered.
    pub open spec fn contains(self, name: Seq<char>) -> bool {
        self.find(name) is Some
    }

    /// What `name` stands for.
    pub open spec fn lookup(self, name: Seq<char>) -> Option<Handle> {
        match self.find(name) {
            Some(i) => Some(self.entries[i].1),
            None => None,
        }
    }

    /// The registry with `name` standing for `handle`; unchanged where the
    /// name is taken.
    pub open spec fn registered(self, name: Seq<char>, handle: Handle) -> RegistryView {
        if self.contains(name) {
            self
        } else {
            RegistryView { entries: self.entries.push((name, handle)) }
        }
    }

    /// The registry without `name`.
    pub open spec fn unregistered(self, name: Seq<char>) -> RegistryView {
        match self.find(name) {
            Some(i) => RegistryView { entries: self.entries.remove(i) },
            None => self,
        }
    }

    /// The registry after `endpoints` have been registered one after the
    /// other, up to the first whose name is taken.
    pub open spec fn install(self, endpoints: Seq<(Seq<char>, Handle)>) -> RegistryView
        decreases endpoints.len(),
    {
        if endpoints.len() == 0 || self.contains(endpoints[0].0) {
            self
        } else {
            self.registered(endpoints[0].0, endpoints[0].1).install(endpoints.drop_first())
        }
    }

    /// The name at which `install` stops, if it stops before the end.
    pub open spec fn collision(self, endpoints: Seq<(Seq<char>, Handle)>) -> Option<Seq<char>>
        decreases endpoints.len(),
    {
        if endpoints.len() == 0 {
            None
        } else if self.contains(endpoints[0].0) {
            Some(endpoints[0].0)
        } else {
            self.registered(endpoints[0].0, endpoints[0].1).collision(endpoints.drop_first())
        }
    }

    /// The registry without any of `names`.
    pub open spec fn release(self, names: Seq<Seq<char>>) -> RegistryView
        decreases names.len(),
    {
        if names.len() == 0 {
            self
        } else {
            self.unregistered(names[0]).release(names.drop_first())
        }
    }
}

/// Registering keeps the registry well formed, and makes the name stand for
/// the handle unless it was taken.
pub proof fn lemma_registered(registry: RegistryView, name: Seq<char>, handle: Handle)
    requires
        registry.wf(),
    ensures
        registry.registered(name, handle).wf(),
        registry.registered(name, handle).contains(name),
        !registry.contains(name) ==> registry.registered(name, handle).lookup(name) == Some(handle),
        forall|other: Seq<char>|
            other != name ==> #[trigger] registry.registered(name, handle).lookup(other)
                == registry.lookup(other),
{
    let next = registry.registered(name, handle);
    if !registry.contains(name) {
        assert(next.names() =~= registry.names().push(name));
        lemma_push_unique(registry.names(), name);
        assert forall|other: Seq<char>| other != name implies #[trigger] next.lookup(other)
            == registry.lookup(other) by {
            next.names().index_of_first_ensures(other);
            registry.names().index_of_first_ensures(other);
            match registry.find(other) {
                Some(i) => {
                    assert(next.names()[i] == other);
                    assert forall|j: int| 0 <= j < i implies next.names()[j] != other by {
                        assert(registry.names()[j] != other);
                    }
                    lemma_found(next.names(), other, i);
                },
                None => {
                    assert forall|j: int| 0 <= j < next.names().len() implies next.names()[j]
                        != other by {
                        if j < registry.names().len() {
                            assert(registry.names()[j] == next.names()[j]);
                            assert(registry.names().contains(registry.names()[j]));
                        }
                    }
                    lemma_missing(next.names(), other);
                },
            }
        }
    }
}

/// Unregistering keeps the registry well formed, frees the name, and
/// leaves every other name as it was.
pub proof fn lemma_unregistered(registry: RegistryView, name: Seq<char>)
    requires
        registry.wf(),
    ensures
        registry.unregistered(name).wf(),
        !registry.unregistered(name).contains(name),
        forall|other: Seq<char>|
            other != name ==> #[trigger] registry.unregistered(name).lookup(other)
                == registry.lookup(other),
{
    let next = registry.unregistered(name);
    registry.names().index_of_first_ensures(name);
    match registry.find(name) {
        Some(i) => {
            assert(next.names() =~= registry.names().remove(i));
            lemma_remove_unique(registry.names(), i);
            assert forall|other: Seq<char>| other != name implies #[trigger] next.lookup(other)
                == registry.lookup(other) by {
                next.names().index_of_first_ensures(other);
                registry.names().index_of_first_ensures(other);
                assert(next.names().index_of_first(other) is Some <==> registry.names().index_of_first(
                    other,
                ) is Some);
                match registry.find(other) {
                    Some(j) => {
                        let j2 = if j < i {
                            j
                        } else {
                            j - 1
                        };
                        assert(next.names()[j2] == other);
                        assert forall|k: int| 0 <= k < j2 implies next.names()[k] != other by {
                            let k2 = if k < i {
                                k
                            } else {
                                k + 1
                            };
                            assert(next.names()[k] == registry.names()[k2]);
                        }
                        lemma_found(next.names(), other, j2);
                        assert(next.entries[j2] == registry.entries[j]);
                    },
                    None => {},
                }
            }
        },
        None => {},
    }
}

/// Releasing names keeps the registry well formed, frees each of them, and
/// leaves every other name as it was.
pub proof fn lemma_release(registry: RegistryView, names: Seq<Seq<char>>)
    requires
        registry.wf(),
    ensures
        registry.release(names).wf(),
        forall|i: int| 0 <= i < names.len() ==> !registry.release(names).contains(#[trigger] names[i]),
        forall|other: Seq<char>|
            !names.contains(other) ==> #[trigger] registry.release(names).lookup(other)
                == registry.lookup(other),
        forall|other: Seq<char>|
            !registry.contains(other) ==> !(#[trigger] registry.release(names).contains(other)),
    decreases names.len(),
{
    if names.len() > 0 {
        let first = registry.unregistered(names[0]);
        let rest = names.drop_first();
        lemma_unregistered(registry, names[0]);
        lemma_release(first, rest);
        assert forall|i: int| 0 <= i < names.len() implies !registry.release(names).contains(
            #[trigger] names[i],
        ) by {
            if i > 0 {
                assert(rest[i - 1] == names[i]);
            }
        }
        assert forall|other: Seq<char>| !names.contains(other) implies #[trigger] registry.release(
            names,
        ).lookup(other) == registry.lookup(other) by {
            assert(names[0] != other);
            assert forall|k: int| 0 <= k < rest.len() implies rest[k] != other by {
                assert(names[k + 1] == rest[k]);
            }
        }
        assert forall|other: Seq<char>| !registry.contains(other) implies !(
        #[trigger] registry.release(names).contains(other)) by {
            if other != names[0] {
                assert(first.lookup(other) == registry.lookup(other));
            }
        }
    }
}

/// What a handler has made of a call: a response value, nothing, or an error.
pub open spec fn outcome_view(outcome: Result<Option<Json>, Error>) -> Result<
    Option<JsonModel>,
    ErrorView,
> {
    match outcome {
        Ok(value) => Ok(value.deep_view()),
        Err(error) => Err(error.deep_view()),
    }
}

/// The envelope that answers `call` after its handler has ended in
/// `outcome`: none where the handler gave no value; the call with the value
/// as its response; or the error envelope.
pub open spec fn reply_for(call: CallView, outcome: Result<Option<JsonModel>, ErrorView>) -> Option<
    CallView,
> {
    match outcome {
        Ok(None) => None,
        Ok(Some(value)) => Some(call.answered(value)),
        Err(error) => Some(call.failed(error)),
    }
}

/// The table of the registered methods.
pub struct Dispatcher {
    handles: Vec<(String, Handle)>,
}

impl View for Dispatcher {
    type V = RegistryView;

    closed spec fn view(&self) -> RegistryView {
        RegistryView {
            entries: Seq::new(
                self.handles@.len(),
                |i: int| (self.handles@[i].0@, self.handles@[i].1),
            ),
        }
    }
}

impl Dispatcher {
    /// No name is registered twice.
    pub open spec fn wf(&self) -> bool {
        self@.wf()
    }

    /// A dispatcher without methods.
    pub fn new() -> (r: Dispatcher)
        ensures
            r@.entries == Seq::<(Seq<char>, Handle)>::empty(),
            r.wf(),
    {
        let r = Dispatcher { handles: Vec::new() };
        assert(r@.entries =~= Seq::<(Seq<char>, Handle)>::empty());
        r
    }

    /// The place of `name`.
    fn position(&self, name: &String) -> (r: Option<usize>)
        ensures
            match r {
                Some(i) => i < self.handles.len() && self@.find(name@) == Some(i as int),
                None => self@.find(name@) is None,
            },
    {
        let mut i: usize = 0;
        while i < self.handles.len()
            invariant
                i <= self.handles.len(),
                forall|j: int| 0 <= j < i ==> self@.names()[j] != name@,
            decreases self.handles.len() - i,
        {
            if self.handles[i].0 == *name {
                proof {
                    lemma_found(self@.names(), name@, i as int);
                }
                return Some(i);
            }
            i += 1;
        }
        proof {
            lemma_missing(self@.names(), name@);
        }
        None
    }

    /// What `name` stands for.
    pub fn lookup(&self, name: &str) -> (r: Option<Handle>)
        ensures
            r == self@.lookup(name@),
    {
        let wanted = name.to_owned();
        match self.position(&wanted) {
            Some(i) => Some(self.handles[i].1),
            None => None,
        }
    }

    /// How many methods are registered.
    pub fn len(&self) -> (r: usize)
        ensures
            r == self@.entries.len(),
    {
        self.handles.len()
    }

    /// Finds what the call `rpc_call` is to be served by: the handle under
    /// the name of its method, or the error of a method that nobody has
    /// registered.
    pub fn dispatch(&self, rpc_call: &Message) -> (r: Result<Handle, Error>)
        ensures
            match self@.lookup(rpc_call.deep_view().call) {
                Some(handle) => r is Ok && r->Ok_0 == handle,
                None => r is Err && r->Err_0.deep_view() == ErrorView::Rpc(rpc_call.deep_view().call),
            },
    {
        match self.position(&rpc_call.call) {
            Some(i) => Ok(self.handles[i].1),
            None => Err(Error::from_kind(ErrorKind::RpcError(rpc_call.call.clone()))),
        }
    }

    /// Makes the envelope that answers `rpc_call` out of what its handler
    /// ended in.
    pub fn respond(rpc_call: Message, outcome: Result<Option<Json>, Error>) -> (r: Option<Message>)
        ensures
            r.deep_view() == reply_for(rpc_call.deep_view(), outcome_view(outcome)),
    {
        match outcome {
            Ok(None) => None,
            Ok(Some(value)) => Some(rpc_call.into_answered(value)),
            Err(error) => Some(rpc_call.into_failed(&error)),
        }
    }
}

impl Registry for Dispatcher {
    open spec fn registry(&self) -> RegistryView {
        self@
    }

    fn register(&mut self, fn_name: &str, callback: Handle) -> (r: Option<RegistrationError>) {
        let name = fn_name.to_owned();
        match self.position(&name) {
            Some(_) => Some(RegistrationError::handle_already_exists(fn_name)),
            None => {
                proof {
                    lemma_registered(self@, fn_name@, callback);
                }
                self.handles.push((name, callback));
                assert(final(self)@.entries =~= old(self)@.entries.push((fn_name@, callback)));
                None
            },
        }
    }

    fn unregister(&mut self, fn_name: &str) -> (r: Option<Handle>) {
        let name = fn_name.to_owned();
        proof {
            lemma_unregistered(self@, fn_name@);
        }
        match self.position(&name) {
            Some(i) => {
                let entry = self.handles.remove(i);
                assert(final(self)@.entries =~= old(self)@.entries.remove(i as int));
                Some(entry.1)
            },
            None => None,
        }
    }
}

} // verus!
