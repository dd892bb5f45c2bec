use oprc::netsim::proxy::{
    local_target, on_accept, on_pump, AcceptAction, AcceptEvent, PumpAction, PumpEvent,
};
use oprc::netsim::routes::{build_netsim_routes, NetsimHandler, Verb, DEBUG_PREFIX, V1_PREFIX};
use oprc::netsim::state::{LatencyRequest, NetsimError, NetworkSimState, PartitionRequest};
use oprc::netsim::types::{link_key, sort_links, LinkChecker, LinkState};
use oprc::netsim::zrpc_types::{service_id, NetsimResponse, PeerLinkInfo, NETSIM_KEY_PREFIX};

fn names(list: &[&str]) -> Vec<String> {
    list.iter().map(|s| s.to_string()).collect()
}

fn network(list: &[&str]) -> NetworkSimState {
    NetworkSimState::new(&names(list))
}

fn s(t: &str) -> String {
    t.to_string()
}

#[test]
fn link_keys_are_ordered() {
    assert_eq!(link_key("b", "a"), (s("a"), s("b")));
    assert_eq!(link_key("a", "b"), (s("a"), s("b")));
    assert_eq!(link_key("a", "a"), (s("a"), s("a")));
}

#[test]
fn new_network_connects_all() {
    let net = network(&["cloud", "edge", "fog"]);
    assert_eq!(net.env_names(), names(&["cloud", "edge", "fog"]));
    for a in ["cloud", "edge", "fog"] {
        for b in ["cloud", "edge", "fog"] {
            assert!(net.is_active(a, b));
            assert_eq!(net.latency_ms(a, b), 0);
        }
    }
    assert!(!net.is_active("cloud", "moon"));
    assert!(net.is_active("moon", "moon"));
}

#[test]
fn pairwise_partition_and_heal() {
    let mut net_state = network(&["cloud", "edge"]);
    assert!(net_state.is_active("edge", "cloud"));
    let report = net_state.partition_link(s("edge"), s("cloud"), None).unwrap();
    assert_eq!(report.action, "partitioned");
    assert_eq!((report.env_a.as_str(), report.env_b.as_str()), ("edge", "cloud"));
    assert!(!report.connected);
    assert!(!net_state.is_active("edge", "cloud"));
    assert!(!net_state.is_active("cloud", "edge"));
    let report = net_state.heal_link(s("edge"), s("cloud")).unwrap();
    assert_eq!(report.action, "healed");
    assert!(report.connected);
    assert!(net_state.is_active("edge", "cloud"));
}

#[test]
fn debug_api_list_network_state() {
    let net_state = network(&["cloud", "edge"]);
    let overview = net_state.list_network_state();
    assert!(overview.environments.contains(&s("cloud")));
    assert!(overview.environments.contains(&s("edge")));
    assert_eq!(overview.links.len(), 1);
    assert_eq!(overview.links[0].connected, true);
}

#[test]
fn links_are_listed_in_order() {
    let net = network(&["c", "a", "b"]);
    let links = net.list_network_state().links;
    let ends: Vec<(&str, &str)> =
        links.iter().map(|l| (l.env_a.as_str(), l.env_b.as_str())).collect();
    assert_eq!(ends, [("a", "b"), ("c", "a"), ("c", "b")]);
}

#[test]
fn delay_shows_only_while_connected() {
    let mut net = network(&["a", "b"]);
    let report = net.set_link_latency(s("b"), s("a"), LatencyRequest { latency_ms: 40 }).unwrap();
    assert_eq!(report.action, "latency-updated");
    assert_eq!(report.latency_ms, 40);
    assert_eq!(net.latency_ms("a", "b"), 40);
    let report = net.partition_link(s("a"), s("b"), None).unwrap();
    assert_eq!(report.latency_ms, 40);
    assert_eq!(net.latency_ms("a", "b"), 0);
    net.heal_link(s("a"), s("b")).unwrap();
    assert_eq!(net.latency_ms("a", "b"), 0);
}

#[test]
fn partition_with_a_body_sets_the_delay() {
    let mut net = network(&["a", "b"]);
    net.set_link_latency(s("a"), s("b"), LatencyRequest { latency_ms: 40 }).unwrap();
    let body = Some(PartitionRequest { latency_ms: Some(7) });
    assert_eq!(net.partition_link(s("a"), s("b"), body).unwrap().latency_ms, 7);
    let body = Some(PartitionRequest { latency_ms: None });
    assert_eq!(net.partition_link(s("a"), s("b"), body).unwrap().latency_ms, 0);
}

#[test]
fn unknown_names_are_not_found() {
    let mut net = network(&["a", "b"]);
    assert_eq!(net.partition_link(s("a"), s("x"), None).unwrap_err(), NetsimError::NotFound);
    assert_eq!(net.heal_link(s("x"), s("b")).unwrap_err(), NetsimError::NotFound);
    let req = LatencyRequest { latency_ms: 1 };
    assert_eq!(net.set_link_latency(s("a"), s("a"), req).unwrap_err(), NetsimError::NotFound);
    assert_eq!(net.partition_env(s("x")).unwrap_err(), NetsimError::NotFound);
    assert_eq!(net.heal_env(s("x")).unwrap_err(), NetsimError::NotFound);
    assert!(net.is_active("a", "b"));
}

#[test]
fn an_environment_is_cut_off_and_restored() {
    let mut net = network(&["m", "z", "a", "k"]);
    let report = net.partition_env(s("m")).unwrap();
    assert_eq!(report.env, "m");
    assert_eq!(report.action, "partitioned-from-all");
    assert_eq!(report.affected_links, ["a", "k", "z"]);
    assert!(!net.is_active("m", "z"));
    assert!(!net.is_active("a", "m"));
    assert!(net.is_active("a", "z"));
    let report = net.heal_env(s("m")).unwrap();
    assert_eq!(report.action, "healed-to-all");
    assert_eq!(report.affected_links, ["a", "k", "z"]);
    assert!(net.is_active("m", "z"));
}

#[test]
fn every_link_is_cut_and_restored() {
    let mut net = network(&["a", "b", "c"]);
    net.set_link_latency(s("a"), s("b"), LatencyRequest { latency_ms: 9 }).unwrap();
    let report = net.partition_all();
    assert_eq!(report.action, "partitioned-all");
    assert_eq!(report.environments, ["a", "b", "c"]);
    assert!(!net.is_active("a", "b") && !net.is_active("b", "c") && !net.is_active("a", "c"));
    let report = net.heal_all();
    assert_eq!(report.action, "healed-all");
    for l in net.list_network_state().links {
        assert!(l.connected);
        assert_eq!(l.latency_ms, 0);
    }
}

#[test]
fn a_repeated_name_keeps_the_last_link() {
    let net = network(&["a", "b", "a"]);
    let links = net.list_network_state().links;
    let ends: Vec<(&str, &str)> =
        links.iter().map(|l| (l.env_a.as_str(), l.env_b.as_str())).collect();
    assert_eq!(ends, [("a", "a"), ("b", "a")]);
}

#[test]
fn links_are_sorted() {
    let link = |a: &str, b: &str| LinkState {
        env_a: s(a),
        env_b: s(b),
        connected: true,
        latency_ms: 0,
    };
    let sorted = sort_links(&vec![link("b", "c"), link("a", "z"), link("a", "b")]);
    let ends: Vec<(&str, &str)> =
        sorted.iter().map(|l| (l.env_a.as_str(), l.env_b.as_str())).collect();
    assert_eq!(ends, [("a", "b"), ("a", "z"), ("b", "c")]);
}

#[test]
fn responses_become_links() {
    let ok = NetsimResponse::Success {
        env_name: s("edge"),
        links: vec![
            PeerLinkInfo { peer_env: s("cloud"), connected: false, latency_ms: 5 },
            PeerLinkInfo { peer_env: s("fog"), connected: true, latency_ms: 0 },
        ],
    };
    let links = ok.into_link_states();
    assert_eq!(links.len(), 2);
    assert_eq!(links[0].env_a, "edge");
    assert_eq!(links[0].env_b, "cloud");
    assert!(!links[0].connected);
    assert_eq!(links[0].latency_ms, 5);
    assert_eq!(links[1].env_b, "fog");
    let error = NetsimResponse::Error { message: s("x") };
    assert_eq!(error.into_link_states().len(), 0);
    assert_eq!(NETSIM_KEY_PREFIX, "oprc/netsim");
    assert_eq!(service_id("edge"), "oprc/netsim/edge");
}

#[test]
fn proxy_follows_the_link() {
    let mut net = network(&["cloud", "edge"]);
    assert_eq!(on_accept(&net, "cloud", "edge", AcceptEvent::Accepted), AcceptAction::Connect);
    assert_eq!(on_accept(&net, "cloud", "edge", AcceptEvent::Connected), AcceptAction::Serve);
    assert_eq!(on_accept(&net, "cloud", "edge", AcceptEvent::AcceptFailed), AcceptAction::Next);
    assert_eq!(on_accept(&net, "cloud", "edge", AcceptEvent::ConnectFailed), AcceptAction::Next);
    assert_eq!(on_accept(&net, "cloud", "edge", AcceptEvent::Cancelled), AcceptAction::Stop);
    net.set_link_latency(s("cloud"), s("edge"), LatencyRequest { latency_ms: 200 }).unwrap();
    assert_eq!(
        on_pump(&net, "cloud", "edge", PumpEvent::Read(10)),
        PumpAction::Forward { delay_ms: 200, count: 10 }
    );
    assert_eq!(on_pump(&net, "cloud", "edge", PumpEvent::Read(0)), PumpAction::Close);
    assert_eq!(on_pump(&net, "cloud", "edge", PumpEvent::ReadFailed), PumpAction::Close);
    assert_eq!(on_pump(&net, "cloud", "edge", PumpEvent::Cancelled), PumpAction::Close);
    assert_eq!(on_pump(&net, "cloud", "edge", PumpEvent::Written), PumpAction::Read);
    assert_eq!(on_pump(&net, "cloud", "edge", PumpEvent::WriteFailed), PumpAction::Close);
    net.partition_link(s("cloud"), s("edge"), None).unwrap();
    assert_eq!(on_accept(&net, "cloud", "edge", AcceptEvent::Accepted), AcceptAction::Next);
    assert_eq!(on_pump(&net, "cloud", "edge", PumpEvent::Read(10)), PumpAction::Close);
    net.heal_link(s("cloud"), s("edge")).unwrap();
    assert_eq!(
        on_pump(&net, "cloud", "edge", PumpEvent::Read(10)),
        PumpAction::Forward { delay_ms: 0, count: 10 }
    );
    assert_eq!(local_target(17447), "127.0.0.1:17447");
}

#[test]
fn simulation_has_routes() {
    let routes = build_netsim_routes(DEBUG_PREFIX);
    assert_eq!(routes.len(), 8);
    assert_eq!(routes[0].path, "/api/debug/network");
    assert_eq!(routes[0].verb, Verb::Get);
    assert_eq!(routes[3].path, "/api/debug/network/{env_a}/{env_b}/partition");
    assert_eq!(routes[3].handler, NetsimHandler::PartitionLink);
    assert_eq!(routes[7].verb, Verb::Post);
    let v1 = build_netsim_routes(V1_PREFIX);
    assert_eq!(v1[2].path, "/api/v1/network-sim/heal-all");
}

/// Whether a path is served under the path of a route, where `{..}` stands for any segment.
fn serves(route: &str, path: &str) -> bool {
    let route: Vec<&str> = route.split('/').collect();
    let path: Vec<&str> = path.split('/').collect();
    route.len() == path.len()
        && route.iter().zip(&path).all(|(r, p)| r == p || r.starts_with('{'))
}

#[test]
fn pm_api_has_no_gateway_routes() {
    let routes = build_netsim_routes(DEBUG_PREFIX);
    assert!(routes.iter().any(|r| serves(&r.path, "/api/debug/network/edge/cloud/heal")));
    for path in
        ["/api/class/my.Cls/0/objects", "/api/gateway/env/cloud/api/class/my.Cls/0/objects"]
    {
        assert!(!routes.iter().any(|r| serves(&r.path, path)));
    }
}
