use vstd::prelude::*;

use crate::addr::PeerAddr;
use crate::errors::{Error, ErrorKind, ErrorView};
use crate::json::{string_items, Json, JsonModel};
use crate::peers::PeerState;
use crate::rpc::dispatch::{Handle, LocalRpc, RegistryView};
use crate::rpc::service::{endpoints_view, install, Registry, Service};
use crate::state::clients::{ClientTracker, ClientView, TrackerView};
use crate::text::addr_text;

verus! {

/// The service through which a peer registers the methods that it serves.
pub struct RegistrationService {}

/// The handles that the arguments of `register_app` name: the array of
/// strings under `handles` in an object. Otherwise, why the arguments are
/// refused.
pub open spec fn app_handles(args: JsonModel) -> Result<Seq<Seq<char>>, Seq<char>> {
    match args {
        JsonModel::Object(_) => match args.get("handles"@) {
            Some(JsonModel::Array(items)) => if string_items(items).len() == items.len() {
                Ok(string_items(items))
            } else {
                Err("invalid type: expected a string"@)
            },
            Some(_) => Err("invalid type: expected a sequence"@),
            None => Err("missing field `handles`"@),
        },
        _ => Err("invalid type: expected struct RegisterAppArgs"@),
    }
}

/// The names among `handles` that the peer at `app` gets: each name that
/// is free when its turn comes, in the order of `handles`.
pub open spec fn granted(registry: RegistryView, app: PeerAddr, handles: Seq<Seq<char>>) -> Seq<
    Seq<char>,
>
    decreases handles.len(),
{
    if handles.len() == 0 {
        Seq::empty()
    } else if registry.contains(handles[0]) {
        granted(registry, app, handles.drop_first())
    } else {
        seq![handles[0]] + granted(
            registry.registered(handles[0], Handle::Forward(app)),
            app,
            handles.drop_first(),
        )
    }
}

/// The registry after the peer at `app` has asked for `handles`: the names
/// that were free are forwarded to it.
pub open spec fn with_app(registry: RegistryView, app: PeerAddr, handles: Seq<Seq<char>>) -> RegistryView
    decreases handles.len(),
{
    if handles.len() == 0 {
        registry
    } else {
        with_app(
            registry.registered(handles[0], Handle::Forward(app)),
            app,
            handles.drop_first(),
        )
    }
}

/// The response of `register_app` that names `registered`.
pub open spec fn registered_response(registered: Seq<Seq<char>>) -> JsonModel {
    JsonModel::object1("registered"@, JsonModel::strings(registered))
}

/// The client after it has registered `names`.
pub open spec fn registrant(client: ClientView, names: Seq<Seq<char>>) -> ClientView {
    ClientView {
        state: if client.state == PeerState::Closing {
            PeerState::Closing
        } else {
            PeerState::Handshook
        },
        callbacks: client.callbacks.push(names),
    }
}

/// What `register_app` makes of the arguments `args` of `caller`: the new
/// registry, the new tracker, and the outcome of the call.
pub open spec fn app_registered(
    registry: RegistryView,
    clients: TrackerView,
    caller: PeerAddr,
    args: JsonModel,
) -> (RegistryView, TrackerView, Result<Option<JsonModel>, ErrorView>) {
    match app_handles(args) {
        Err(cause) => (registry, clients, Err(ErrorView::Io(cause))),
        Ok(handles) => match clients.get(caller) {
            None => (
                registry,
                clients,
                Err(ErrorView::Io("No registered client for "@ + addr_text(caller) + ""@)),
            ),
            Some(client) => {
                let names = granted(registry, caller, handles);
                (
                    with_app(registry, caller, handles),
                    clients.with(caller, registrant(client, names)),
                    Ok(Some(registered_response(names))),
                )
            },
        },
    }
}

/// The methods of the registration service.
pub open spec fn registration_endpoints() -> Seq<(Seq<char>, Handle)> {
    seq![("register_app"@, Handle::Local(LocalRpc::RegisterApp))]
}

/// Reads the handles that the arguments of `register_app` name.
pub fn read_app_handles(args: &Json) -> (r: Result<Vec<String>, Error>)
    ensures
        match app_handles(args.deep_view()) {
            Ok(handles) => r is Ok && r->Ok_0.deep_view() == handles,
            Err(cause) => r is Err && r->Err_0.deep_view() == ErrorView::Io(cause),
        },
{
    match args {
        Json::Object(_) => match args.get("handles") {
            Some(value) => match value.as_array() {
                Some(items) => {
                    let handles = Json::collect_strings(items);
                    if handles.len() == items.len() {
                        Ok(handles)
                    } else {
                        Err(
                            Error::from_kind(
                                ErrorKind::IoError("invalid type: expected a string".to_owned()),
                            ),
                        )
                    }
                },
                None => Err(
                    Error::from_kind(
                        ErrorKind::IoError("invalid type: expected a sequence".to_owned()),
                    ),
                ),
            },
            None => Err(Error::from_kind(ErrorKind::IoError("missing field `handles`".to_owned()))),
        },
        _ => Err(
            Error::from_kind(
                ErrorKind::IoError("invalid type: expected struct RegisterAppArgs".to_owned()),
            ),
        ),
    }
}

impl RegistrationService {
    pub fn new() -> (r: RegistrationService) {
        RegistrationService {  }
    }

    /// Forwards each of `handles` that is free to the peer at `app_address`,
    /// and gives the names that were forwarded.
    pub fn register_app_impl<R: Registry>(
        &self,
        registry: &mut R,
        app_address: PeerAddr,
        handles: &Vec<String>,
    ) -> (r: Vec<String>)
        requires
            old(registry).registry().wf(),
        ensures
            final(registry).registry().wf(),
            final(registry).registry() == with_app(
                old(registry).registry(),
                app_address,
                handles.deep_view(),
            ),
            r.deep_view() == granted(old(registry).registry(), app_address, handles.deep_view()),
    {
        let ghost all = handles.deep_view();
        let ghost start = registry.registry();
        let mut registered: Vec<String> = Vec::new();
        let mut i: usize = 0;
        proof {
            assert(all.subrange(0, all.len() as int) =~= all);
            assert(registered.deep_view() =~= Seq::<Seq<char>>::empty());
            assert(Seq::<Seq<char>>::empty() + granted(start, app_address, all) =~= granted(
                start,
                app_address,
                all,
            ));
        }
        while i < handles.len()
            invariant
                i <= handles.len(),
                all == handles.deep_view(),
                registry.registry().wf(),
                with_app(registry.registry(), app_address, all.subrange(i as int, all.len() as int))
                    == with_app(start, app_address, all),
                registered.deep_view() + granted(
                    registry.registry(),
                    app_address,
                    all.subrange(i as int, all.len() as int),
                ) == granted(start, app_address, all),
            decreases handles.len() - i,
        {
            let ghost rest = all.subrange(i as int, all.len() as int);
            let ghost before = registered.deep_view();
            let ghost current = registry.registry();
            assert(rest[0] == handles@[i as int]@);
            assert(rest.drop_first() =~= all.subrange(i + 1, all.len() as int));
            match registry.register(handles[i].as_str(), Handle::Forward(app_address)) {
                Some(_) => {},
                None => {
                    registered.push(handles[i].clone());
                    proof {
                        assert(registered.deep_view() =~= before.push(rest[0]));
                        assert(before.push(rest[0]) + granted(
                            registry.registry(),
                            app_address,
                            rest.drop_first(),
                        ) =~= before + (seq![rest[0]] + granted(
                            registry.registry(),
                            app_address,
                            rest.drop_first(),
                        )));
                    }
                },
            }
            i += 1;
        }
        proof {
            assert(registered.deep_view() + Seq::<Seq<char>>::empty() =~= registered.deep_view());
        }
        registered
    }

    /// The method `register_app`: forwards the free names among the handles
    /// in `args` to `caller`, notes that they leave the registry when
    /// `caller` leaves, and answers with the names that were forwarded.
    pub fn register_app<R: Registry>(
        &self,
        registry: &mut R,
        clients: &mut ClientTracker,
        caller: PeerAddr,
        args: &Json,
    ) -> (r: Result<Option<Json>, Error>)
        requires
            old(registry).registry().wf(),
            old(clients).wf(),
        ensures
            final(registry).registry().wf(),
            final(clients).wf(),
            (final(registry).registry(), final(clients)@, crate::rpc::dispatch::outcome_view(r))
                == app_registered(
                old(registry).registry(),
                old(clients)@,
                caller,
                args.deep_view(),
            ),
    {
        match read_app_handles(args) {
            Err(error) => Err(error),
            Ok(handles) => {
                if !clients.is_connected(caller) {
                    return Err(Error::unreachable("No registered client for ", caller, ""));
                }
                let registered = self.register_app_impl(registry, caller, &handles);
                let response = Json::object1("registered", Json::from_strings(&registered));
                let _ = clients.note_registration(caller, registered);
                Ok(Some(response))
            },
        }
    }
}

impl Service for RegistrationService {
    open spec fn spec_name(&self) -> Seq<char> {
        "RegistrationService"@
    }

    open spec fn spec_endpoints(&self) -> Seq<(Seq<char>, Handle)> {
        registration_endpoints()
    }

    fn name(&self) -> (r: String) {
        "RegistrationService".to_owned()
    }

    fn endpoints(&self) -> (r: Vec<(String, Handle)>) {
        let mut endpoints: Vec<(String, Handle)> = Vec::new();
        endpoints.push(("register_app".to_owned(), Handle::Local(LocalRpc::RegisterApp)));
        assert(endpoints_view(endpoints@) =~= registration_endpoints());
        endpoints
    }

    fn register_endpoints<R: Registry>(&self, register: &mut R) -> (r: Result<(), Error>) {
        install(register, &self.name(), &self.endpoints())
    }
}

} // verus!
