use vstd::prelude::*;

use crate::errors::{Error, ErrorView};
use crate::json::{Json, JsonModel};
use crate::rpc::dispatch::{Handle, LocalRpc};
use crate::rpc::service::{endpoints_view, install, Registry, Service};

verus! {

/// A place to try methods out.
pub struct ExperimentalService {}

/// The response of `num_active_connections`: the service is told of no
/// connection, and counts none.
pub open spec fn active_connections_response() -> JsonModel {
    JsonModel::object1("registered"@, JsonModel::Number("0"@))
}

/// The methods of the experimental service.
pub open spec fn experimental_endpoints() -> Seq<(Seq<char>, Handle)> {
    seq![("num_active_connections"@, Handle::Local(LocalRpc::NumActiveConnections))]
}

impl ExperimentalService {
    pub fn new() -> (r: ExperimentalService) {
        ExperimentalService {  }
    }

    /// The method `num_active_connections`.
    pub fn num_active_connections(&self) -> (r: Result<Option<Json>, Error>)
        ensures
            crate::rpc::dispatch::outcome_view(r) == Ok::<Option<JsonModel>, ErrorView>(
                Some(active_connections_response()),
            ),
    {
        Ok(Some(Json::object1("registered", Json::Number("0".to_owned()))))
    }
}

impl Service for ExperimentalService {
    open spec fn spec_name(&self) -> Seq<char> {
        "ExperimentalService"@
    }

    open spec fn spec_endpoints(&self) -> Seq<(Seq<char>, Handle)> {
        experimental_endpoints()
    }

    fn name(&self) -> (r: String) {
        "ExperimentalService".to_owned()
    }

    fn endpoints(&self) -> (r: Vec<(String, Handle)>) {
        let mut endpoints: Vec<(String, Handle)> = Vec::new();
        endpoints.push(
            ("num_active_connections".to_owned(), Handle::Local(LocalRpc::NumActiveConnections)),
        );
        assert(endpoints_view(endpoints@) =~= experimental_endpoints());
        endpoints
    }

    fn register_endpoints<R: Registry>(&self, register: &mut R) -> (r: Result<(), Error>) {
        install(register, &self.name(), &self.endpoints())
    }
}

} // verus!
