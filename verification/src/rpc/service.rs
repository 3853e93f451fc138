use vstd::prelude::*;

use crate::errors::{Error, ErrorView, RegistrationError};
use crate::rpc::dispatch::{Handle, RegistryView};

verus! {

/// A table in which methods are registered under their names.
pub trait Registry {
    /// What is registered.
    spec fn registry(&self) -> RegistryView;

    /// Registers `callback` under `fn_name`. A name can be registered once:
    /// where it is taken, nothing changes and the error says so.
    fn register(&mut self, fn_name: &str, callback: Handle) -> (r: Option<RegistrationError>)
        requires
            old(self).registry().wf(),
        ensures
            final(self).registry().wf(),
            final(self).registry() == old(self).registry().registered(fn_name@, callback),
            r is Some <==> old(self).registry().contains(fn_name@),
            r is Some ==> r->Some_0.deep_view() == fn_name@,
    ;

    /// Takes `fn_name` out and gives back what it stood for.
    fn unregister(&mut self, fn_name: &str) -> (r: Option<Handle>)
        requires
            old(self).registry().wf(),
        ensures
            final(self).registry().wf(),
            final(self).registry() == old(self).registry().unregistered(fn_name@),
            r == old(self).registry().lookup(fn_name@),
    ;
}

/// The names and handles of `endpoints`.
pub open spec fn endpoints_view(endpoints: Seq<(String, Handle)>) -> Seq<(Seq<char>, Handle)> {
    Seq::new(endpoints.len(), |i: int| (endpoints[i].0@, endpoints[i].1))
}

/// What registering the endpoints of `service` in `registry` ends in: the
/// error of the first name that is taken, if one is.
pub open spec fn install_result(
    registry: RegistryView,
    service: Seq<char>,
    endpoints: Seq<(Seq<char>, Handle)>,
) -> Option<ErrorView> {
    match registry.collision(endpoints) {
        Some(name) => Some(ErrorView::ServiceRegistration(service, name)),
        None => None,
    }
}

/// A set of methods that make themselves known to a registry.
pub trait Service {
    /// The name of the service.
    spec fn spec_name(&self) -> Seq<char>;

    /// The methods of the service, in the order in which it registers them.
    spec fn spec_endpoints(&self) -> Seq<(Seq<char>, Handle)>;

    fn name(&self) -> (r: String)
        ensures
            r@ == self.spec_name(),
    ;

    fn endpoints(&self) -> (r: Vec<(String, Handle)>)
        ensures
            endpoints_view(r@) == self.spec_endpoints(),
    ;

    /// Registers the methods of the service one after the other, and stops
    /// with an error at the first whose name is taken.
    fn register_endpoints<R: Registry>(&self, register: &mut R) -> (r: Result<(), Error>)
        requires
            old(register).registry().wf(),
        ensures
            final(register).registry().wf(),
            final(register).registry() == old(register).registry().install(self.spec_endpoints()),
            match install_result(old(register).registry(), self.spec_name(), self.spec_endpoints()) {
                Some(error) => r is Err && r->Err_0.deep_view() == error,
                None => r is Ok,
            },
    ;
}

/// Registers `endpoints` for the service `service`, one after the other, up
/// to the first whose name is taken.
pub fn install<R: Registry>(register: &mut R, service: &String, endpoints: &Vec<(String, Handle)>) -> (r:
    Result<(), Error>)
    requires
        old(register).registry().wf(),
    ensures
        final(register).registry().wf(),
        final(register).registry() == old(register).registry().install(endpoints_view(endpoints@)),
        match install_result(old(register).registry(), service@, endpoints_view(endpoints@)) {
            Some(error) => r is Err && r->Err_0.deep_view() == error,
            None => r is Ok,
        },
{
    let ghost all = endpoints_view(endpoints@);
    let ghost start = register.registry();
    let mut i: usize = 0;
    assert(all.subrange(0, all.len() as int) =~= all);
    while i < endpoints.len()
        invariant
            i <= endpoints.len(),
            all == endpoints_view(endpoints@),
            start == old(register).registry(),
            register.registry().wf(),
            register.registry().install(all.subrange(i as int, all.len() as int)) == start.install(
                all,
            ),
            register.registry().collision(all.subrange(i as int, all.len() as int))
                == start.collision(all),
        decreases endpoints.len() - i,
    {
        let ghost rest = all.subrange(i as int, all.len() as int);
        assert(rest[0] == all[i as int]);
        assert(all[i as int] == (endpoints@[i as int].0@, endpoints@[i as int].1));
        assert(rest.drop_first() =~= all.subrange(i + 1, all.len() as int));
        match register.register(endpoints[i].0.as_str(), endpoints[i].1) {
            Some(error) => {
                return Err(Error::registration_error(service.as_str(), error));
            },
            None => {},
        }
        i += 1;
    }
    Ok(())
}

} // verus!
