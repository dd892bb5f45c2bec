//! Paths under which the simulation is served.
use vstd::prelude::*;
use vstd::string::*;

verus! {

/// The method of a route.
#[derive(Debug, Clone, Copy, PartialEq, Eq, Structural)]
pub enum Verb {
    Get,
    Post,
}

/// The operation behind a route.
#[derive(Debug, Clone, Copy, PartialEq, Eq, Structural)]
pub enum NetsimHandler {
    ListNetworkState,
    PartitionAll,
    HealAll,
    PartitionLink,
    HealLink,
    SetLinkLatency,
    PartitionEnv,
    HealEnv,
}

/// A route: what a request to a path runs.
#[derive(Debug)]
pub struct Route {
    pub path: String,
    pub verb: Verb,
    pub handler: NetsimHandler,
}

/// Where the simulation is served for debugging.
pub const DEBUG_PREFIX: &'static str = "/api/debug/network";

/// Where the simulation is served as part of the management interface.
pub const V1_PREFIX: &'static str = "/api/v1/network-sim";

/// The part of a route's path behind the prefix.
pub open spec fn path_tail(handler: NetsimHandler) -> Seq<char> {
    match handler {
        NetsimHandler::ListNetworkState => ""@,
        NetsimHandler::PartitionAll => "/partition-all"@,
        NetsimHandler::HealAll => "/heal-all"@,
        NetsimHandler::PartitionLink => "/{env_a}/{env_b}/partition"@,
        NetsimHandler::HealLink => "/{env_a}/{env_b}/heal"@,
        NetsimHandler::SetLinkLatency => "/{env_a}/{env_b}/latency"@,
        NetsimHandler::PartitionEnv => "/{env}/partition"@,
        NetsimHandler::HealEnv => "/{env}/heal"@,
    }
}

/// The method of an operation: reading is a `GET`, everything else a `POST`.
pub open spec fn verb_of(handler: NetsimHandler) -> Verb {
    if handler == NetsimHandler::ListNetworkState {
        Verb::Get
    } else {
        Verb::Post
    }
}

/// The operations in the order in which they are served.
pub open spec fn all_handlers() -> Seq<NetsimHandler> {
    seq![
        NetsimHandler::ListNetworkState,
        NetsimHandler::PartitionAll,
        NetsimHandler::HealAll,
        NetsimHandler::PartitionLink,
        NetsimHandler::HealLink,
        NetsimHandler::SetLinkLatency,
        NetsimHandler::PartitionEnv,
        NetsimHandler::HealEnv,
    ]
}

/// The route of an operation.
fn route(prefix: &str, tail: &str, verb: Verb, handler: NetsimHandler) -> (r: Route)
    ensures
        r.path@ == prefix@ + tail@,
        r.verb == verb,
        r.handler == handler,
{
    let mut path: String = prefix.to_owned();
    path.append(tail);
    Route { path, verb, handler }
}

/// The routes of the simulation under a prefix, one for each operation.
pub fn build_netsim_routes(prefix: &str) -> (r: Vec<Route>)
    ensures
        r@.len() == all_handlers().len(),
        forall|i: int|
            0 <= i < r@.len() ==> (#[trigger] r@[i]).handler == all_handlers()[i] && r@[i].path@
                == prefix@ + path_tail(all_handlers()[i]) && r@[i].verb == verb_of(
                all_handlers()[i],
            ),
{
    let mut r: Vec<Route> = Vec::new();
    r.push(route(prefix, "", Verb::Get, NetsimHandler::ListNetworkState));
    r.push(route(prefix, "/partition-all", Verb::Post, NetsimHandler::PartitionAll));
    r.push(route(prefix, "/heal-all", Verb::Post, NetsimHandler::HealAll));
    r.push(route(prefix, "/{env_a}/{env_b}/partition", Verb::Post, NetsimHandler::PartitionLink));
    r.push(route(prefix, "/{env_a}/{env_b}/heal", Verb::Post, NetsimHandler::HealLink));
    r.push(route(prefix, "/{env_a}/{env_b}/latency", Verb::Post, NetsimHandler::SetLinkLatency));
    r.push(route(prefix, "/{env}/partition", Verb::Post, NetsimHandler::PartitionEnv));
    r.push(route(prefix, "/{env}/heal", Verb::Post, NetsimHandler::HealEnv));
    r
}

/// Only reading the state is a `GET`, and every operation has one route.
pub proof fn law_routes(handler: NetsimHandler)
    ensures
        verb_of(handler) is Get <==> handler is ListNetworkState,
        verb_of(handler) is Post <==> !(handler is ListNetworkState),
        all_handlers().len() == 8,
        all_handlers().contains(handler),
{
    let all = all_handlers();
    assert(all[0] == NetsimHandler::ListNetworkState && all[1] == NetsimHandler::PartitionAll
        && all[2] == NetsimHandler::HealAll && all[3] == NetsimHandler::PartitionLink && all[4]
        == NetsimHandler::HealLink && all[5] == NetsimHandler::SetLinkLatency && all[6]
        == NetsimHandler::PartitionEnv && all[7] == NetsimHandler::HealEnv);
}

/// The paths of the operations behind the prefix: none for reading the state, one name for all
/// links, an environment, or the two ends of a link.
pub proof fn law_paths(handler: NetsimHandler)
    ensures
        handler is ListNetworkState ==> path_tail(handler).len() == 0,
        handler is PartitionAll ==> path_tail(handler) == "/partition-all"@,
        handler is HealAll ==> path_tail(handler) == "/heal-all"@,
        handler is PartitionLink ==> path_tail(handler) == "/{env_a}/{env_b}/partition"@,
        handler is HealLink ==> path_tail(handler) == "/{env_a}/{env_b}/heal"@,
        handler is SetLinkLatency ==> path_tail(handler) == "/{env_a}/{env_b}/latency"@,
        handler is PartitionEnv ==> path_tail(handler) == "/{env}/partition"@,
        handler is HealEnv ==> path_tail(handler) == "/{env}/heal"@,
{
    reveal_strlit("");
}

} // verus!
