//! What the functions on the simulated network give back, whatever they are given.
use vstd::prelude::*;
use vstd::string::*;
use crate::netsim::laws::{law_link_changes, law_new_links, law_new_network_is_connected};
use crate::netsim::proxy::{
    local_target, on_accept, on_pump, AcceptAction, AcceptEvent, PumpAction, PumpEvent,
    BUFFER_SIZE, MONITOR_INTERVAL_MS,
};
use crate::netsim::routes::{
    build_netsim_routes, path_tail, verb_of, Route, DEBUG_PREFIX, V1_PREFIX,
};
use crate::netsim::state::{
    linked_to, BulkActionResponse, EnvActionResponse, LatencyRequest, LinkActionResponse,
    NetsimError, NetworkOverview, NetworkSimState, PartitionRequest,
};
use crate::netsim::types::{
    in_link_order, law_link_key_symmetric, link_key, pair_key, LinkChecker, LinkState, LinkView,
};
use crate::netsim::zrpc_types::{service_id, NetsimResponse, NETSIM_KEY_PREFIX};
use crate::text::chars::views;
use crate::text::number::decimal;
use crate::text::order::text_le;

verus! {

/// Cutting a link succeeds exactly where there is one. Its two ends do not reach each other any
/// more; its delay is kept where the request has no body, and otherwise is the one that the body
/// names, or none. No other link changes, and a failure changes nothing.
pub proof fn law_link_is_cut(
    state: &mut NetworkSimState,
    env_a: String,
    env_b: String,
    body: Option<PartitionRequest>,
    r: Result<LinkActionResponse, NetsimError>,
    k: (Seq<char>, Seq<char>),
)
    requires
        call_ensures(NetworkSimState::partition_link, (state, env_a, env_b, body), r),
    ensures
        ({
            let key = pair_key(env_a@, env_b@);
            let (before, after) = (old(state)@, final(state)@);
            &&& r is Ok <==> before.links.contains_key(key)
            &&& r is Err ==> after == before
            &&& after.env_names == before.env_names
            &&& after.links.contains_key(k) == before.links.contains_key(k)
            &&& before.links.contains_key(k) && k != key ==> after.links[k] == before.links[k]
            &&& r is Ok ==> {
                &&& !after.links[key].connected
                &&& after.links[key].env_a == before.links[key].env_a
                &&& after.links[key].env_b == before.links[key].env_b
                &&& body is None ==> after.links[key].latency_ms == before.links[key].latency_ms
                &&& body matches Some(b) ==> b.latency_ms matches Some(ms)
                    ==> after.links[key].latency_ms == ms
                &&& body matches Some(b) ==> b.latency_ms is None ==> after.links[key].latency_ms
                    == 0
                &&& env_a@ != env_b@ ==> !after.active(env_a@, env_b@) && !after.active(
                    env_b@,
                    env_a@,
                )
                &&& r->Ok_0.env_a@ == env_a@ && r->Ok_0.env_b@ == env_b@
                &&& r->Ok_0.action@ == "partitioned"@
                &&& !r->Ok_0.connected && r->Ok_0.latency_ms == after.links[key].latency_ms
            }
        }),
{
    law_link_key_symmetric(env_a@, env_b@);
    let key = pair_key(env_a@, env_b@);
    law_link_changes(old(state)@.links[key], 0);
}

/// Restoring a link succeeds exactly where there is one. Its two ends reach each other without
/// delay; no other link changes, and a failure changes nothing.
pub proof fn law_link_is_healed(
    state: &mut NetworkSimState,
    env_a: String,
    env_b: String,
    r: Result<LinkActionResponse, NetsimError>,
    k: (Seq<char>, Seq<char>),
)
    requires
        call_ensures(NetworkSimState::heal_link, (state, env_a, env_b), r),
    ensures
        ({
            let key = pair_key(env_a@, env_b@);
            let (before, after) = (old(state)@, final(state)@);
            &&& r is Ok <==> before.links.contains_key(key)
            &&& r is Err ==> after == before
            &&& after.env_names == before.env_names
            &&& after.links.contains_key(k) == before.links.contains_key(k)
            &&& before.links.contains_key(k) && k != key ==> after.links[k] == before.links[k]
            &&& r is Ok ==> {
                &&& after.links[key].connected && after.links[key].latency_ms == 0
                &&& after.links[key].env_a == before.links[key].env_a
                &&& after.links[key].env_b == before.links[key].env_b
                &&& after.active(env_a@, env_b@) && after.active(env_b@, env_a@)
                &&& after.delay(env_a@, env_b@) == 0
                &&& r->Ok_0.env_a@ == env_a@ && r->Ok_0.env_b@ == env_b@
                &&& r->Ok_0.action@ == "healed"@
                &&& r->Ok_0.connected && r->Ok_0.latency_ms == 0
            }
        }),
{
    law_link_key_symmetric(env_a@, env_b@);
}

/// Setting a delay succeeds exactly where there is a link. Its two ends reach each other exactly
/// where they did, with the new delay; no other link changes, and a failure changes nothing.
pub proof fn law_link_is_delayed(
    state: &mut NetworkSimState,
    env_a: String,
    env_b: String,
    req: LatencyRequest,
    r: Result<LinkActionResponse, NetsimError>,
    k: (Seq<char>, Seq<char>),
)
    requires
        call_ensures(NetworkSimState::set_link_latency, (state, env_a, env_b, req), r),
    ensures
        ({
            let key = pair_key(env_a@, env_b@);
            let (before, after) = (old(state)@, final(state)@);
            &&& r is Ok <==> before.links.contains_key(key)
            &&& r is Err ==> after == before
            &&& after.env_names == before.env_names
            &&& after.links.contains_key(k) == before.links.contains_key(k)
            &&& before.links.contains_key(k) && k != key ==> after.links[k] == before.links[k]
            &&& r is Ok ==> {
                &&& after.links[key].latency_ms == req.latency_ms
                &&& after.links[key].connected == before.links[key].connected
                &&& after.links[key].env_a == before.links[key].env_a
                &&& after.links[key].env_b == before.links[key].env_b
                &&& after.active(env_a@, env_b@) == before.active(env_a@, env_b@)
                &&& env_a@ != env_b@ && after.active(env_a@, env_b@) ==> after.delay(env_a@, env_b@)
                    == req.latency_ms
                &&& r->Ok_0.env_a@ == env_a@ && r->Ok_0.env_b@ == env_b@
                &&& r->Ok_0.action@ == "latency-updated"@
                &&& r->Ok_0.connected == before.links[key].connected && r->Ok_0.latency_ms
                    == req.latency_ms
            }
        }),
{
}

/// Cutting or restoring an environment succeeds exactly where it is known. All its links are cut,
/// or restored without delay; no other link changes, and a failure changes nothing.
pub proof fn law_environment_is_set(
    cut: &mut NetworkSimState,
    healed: &mut NetworkSimState,
    env: String,
    c: Result<EnvActionResponse, NetsimError>,
    h: Result<EnvActionResponse, NetsimError>,
    k: (Seq<char>, Seq<char>),
)
    requires
        call_ensures(NetworkSimState::partition_env, (cut, env), c),
        call_ensures(NetworkSimState::heal_env, (healed, env), h),
    ensures
        c is Ok <==> old(cut)@.env_names.contains(env@),
        h is Ok <==> old(healed)@.env_names.contains(env@),
        c is Err ==> final(cut)@ == old(cut)@,
        h is Err ==> final(healed)@ == old(healed)@,
        final(cut)@.env_names == old(cut)@.env_names,
        final(healed)@.env_names == old(healed)@.env_names,
        c is Ok && old(cut)@.links.contains_key(k) ==> final(cut)@.links.contains_key(k) && ({
            let l = old(cut)@.links[k];
            final(cut)@.links[k] == if l.env_a == env@ || l.env_b == env@ {
                LinkView { connected: false, ..l }
            } else {
                l
            }
        }),
        h is Ok && old(healed)@.links.contains_key(k) ==> final(healed)@.links.contains_key(k) && ({
            let l = old(healed)@.links[k];
            final(healed)@.links[k] == if l.env_a == env@ || l.env_b == env@ {
                LinkView { connected: true, latency_ms: 0, ..l }
            } else {
                l
            }
        }),
        c matches Ok(report) ==> report.env@ == env@ && report.action@ == "partitioned-from-all"@
            && views(report.affected_links@).to_set() == linked_to(old(cut)@.links, env@),
        h matches Ok(report) ==> report.env@ == env@ && report.action@ == "healed-to-all"@ && views(
            report.affected_links@,
        ).to_set() == linked_to(old(healed)@.links, env@),
{
}

/// Cutting or restoring all links sets every one of them, and names all environments.
pub proof fn law_everything_is_set(
    cut: &mut NetworkSimState,
    healed: &mut NetworkSimState,
    c: BulkActionResponse,
    h: BulkActionResponse,
    k: (Seq<char>, Seq<char>),
)
    requires
        call_ensures(NetworkSimState::partition_all, (cut,), c),
        call_ensures(NetworkSimState::heal_all, (healed,), h),
    ensures
        old(cut)@.links.contains_key(k) ==> final(cut)@.links.contains_key(k) && final(cut)@.links[k] == (LinkView { connected: false, ..old(cut)@.links[k] }),
        old(healed)@.links.contains_key(k) ==> final(healed)@.links.contains_key(k) && final(healed)@.links[k] == (LinkView { connected: true, latency_ms: 0, ..old(healed)@.links[k] }),
        final(cut)@.env_names == old(cut)@.env_names,
        final(healed)@.env_names == old(healed)@.env_names,
        c.action@ == "partitioned-all"@ && views(c.environments@) == old(cut)@.env_names,
        h.action@ == "healed-all"@ && views(h.environments@) == old(healed)@.env_names,
{
}

/// A new network has the environments that it was given, and each two of them reach each other
/// without delay over a link of their own.
pub proof fn law_network_starts(names: &[String], r: NetworkSimState, i: int, j: int)
    requires
        call_ensures(NetworkSimState::new, (names,), r),
        0 <= i < j < names@.len(),
    ensures
        r@.env_names == views(names@),
        r@.active(names@[i]@, names@[j]@),
        r@.delay(names@[i]@, names@[j]@) == 0,
        views(names@).no_duplicates() ==> r@.links[pair_key(names@[i]@, names@[j]@)] == (LinkView {
            env_a: names@[i]@,
            env_b: names@[j]@,
            connected: true,
            latency_ms: 0,
        }),
{
    let all = views(names@);
    assert(all[i] == names@[i]@ && all[j] == names@[j]@);
    law_new_network_is_connected(all, all[i], all[j]);
    if all.no_duplicates() {
        law_new_links(all, i, j);
    }
}

/// The overview of a network names its environments and lists its links in order.
pub proof fn law_overview(state: &NetworkSimState, r: NetworkOverview)
    requires
        call_ensures(NetworkSimState::list_network_state, (state,), r),
    ensures
        views(r.environments@) == state@.env_names,
        in_link_order(r.links@),
        crate::netsim::types::link_table(r.links@) == state@.links,
{
}

/// The key of a link is the pair of its ends in text order.
pub proof fn law_link_key(a: &str, b: &str, r: (String, String))
    requires
        call_ensures(link_key, (a, b), r),
    ensures
        text_le(a@, b@) ==> r.0@ == a@ && r.1@ == b@,
        !text_le(a@, b@) ==> r.0@ == b@ && r.1@ == a@,
{
}

/// Names of services and addresses of local ports.
pub proof fn law_names_and_addresses(env_name: &str, service: String, port: u16, target: String)
    requires
        call_ensures(service_id, (env_name,), service),
        call_ensures(local_target, (port,), target),
    ensures
        service@ == "oprc/netsim"@ + "/"@ + env_name@,
        target@ == "127.0.0.1:"@ + decimal(port as nat),
{
}

/// The routes under a prefix: one for each operation, under its own path and method.
pub proof fn law_routes_under_prefix(prefix: &str, r: Vec<Route>, i: int)
    requires
        call_ensures(build_netsim_routes, (prefix,), r),
    ensures
        r@.len() == 8,
        0 <= i < 8 ==> r@[i].path@ == prefix@ + path_tail(r@[i].handler) && r@[i].verb == verb_of(
            r@[i].handler,
        ),
        r@[0].handler is ListNetworkState && r@[1].handler is PartitionAll && r@[2].handler is HealAll
            && r@[3].handler is PartitionLink && r@[4].handler is HealLink && r@[5].handler
            is SetLinkLatency && r@[6].handler is PartitionEnv && r@[7].handler is HealEnv,
{
}

/// What a router reports becomes one link for each of its peers, and an error none.
pub proof fn law_link_states(response: NetsimResponse, r: Vec<LinkState>, i: int)
    requires
        call_ensures(NetsimResponse::into_link_states, (response,), r),
    ensures
        response is Error ==> r@.len() == 0,
        response matches NetsimResponse::Success { env_name, links } ==> r@.len() == links@.len()
            && (0 <= i < links@.len() ==> r@[i].env_a@ == env_name@ && r@[i].env_b@
            == links@[i].peer_env@ && r@[i].connected == links@[i].connected && r@[i].latency_ms
            == links@[i].latency_ms),
{
    let all = views(r@);
    assert(all.len() == r@.len());
    if 0 <= i < all.len() {
        assert(all[i] == r@[i]@);
    }
}

/// A proxy refuses a connection exactly where the link does not carry traffic, and forwards bytes
/// with the delay of the link.
pub proof fn law_proxy_decides<C: LinkChecker>(
    checker: &C,
    a: &str,
    b: &str,
    accept: AcceptEvent,
    taken: AcceptAction,
    pump: PumpEvent,
    passed: PumpAction,
)
    requires
        call_ensures(on_accept::<C>, (checker, a, b, accept), taken),
        call_ensures(on_pump::<C>, (checker, a, b, pump), passed),
    ensures
        taken is Connect <==> accept is Accepted && checker.active(a@, b@),
        taken is Stop <==> accept is Cancelled,
        taken is Serve <==> accept is Connected,
        passed is Forward <==> checker.active(a@, b@) && (pump matches PumpEvent::Read(n) && n > 0),
        passed matches PumpAction::Forward { delay_ms, count } ==> delay_ms == checker.delay(
            a@,
            b@,
        ) && pump == PumpEvent::Read(count),
        passed is Read <==> pump is Written,
{
}

/// The network checks its links by both ends, in either order.
pub proof fn law_network_checks_its_links(state: NetworkSimState, a: Seq<char>, b: Seq<char>)
    ensures
        LinkChecker::active(&state, a, b) <==> a == b || (state@.links.contains_key(pair_key(a, b))
            && state@.links[pair_key(a, b)].connected),
        a == b || !LinkChecker::active(&state, a, b) ==> LinkChecker::delay(&state, a, b) == 0,
        a != b && LinkChecker::active(&state, a, b) ==> LinkChecker::delay(&state, a, b)
            == state@.links[pair_key(a, b)].latency_ms,
        LinkChecker::active(&state, a, b) == LinkChecker::active(&state, b, a),
        LinkChecker::delay(&state, a, b) == LinkChecker::delay(&state, b, a),
{
    law_link_key_symmetric(a, b);
}

/// What the proxies and the routes are fixed to.
pub proof fn law_fixed_values()
    ensures
        BUFFER_SIZE == 16384,
        MONITOR_INTERVAL_MS == 100,
        NETSIM_KEY_PREFIX@ == "oprc/netsim"@,
        DEBUG_PREFIX@ == "/api/debug/network"@,
        V1_PREFIX@ == "/api/v1/network-sim"@,
{
}

} // verus!
