use oprc::crm::{NetsimAction, NetsimControlResponse};
use oprc::netsim::zrpc_types::PeerLinkInfo;
use oprc::pm::bootstrap::{plan_server, AppConfig, ArtifactConfig, CompilerConfig};
use oprc::pm::gateway_proxy::{
    forward_to_gateway, gateway_proxy, gateway_proxy_env, hop_by_hop, not_configured, response_from_gateway, step_failed,
    target_path, ApiError, ForwardStep, GatewayProxy, Header,
};
use oprc::pm::netsim::{get_network_state, CrmManager, NetsimCall, NetsimManager};
use oprc::pm::network_sim::{bulk_answer, env_answer, link_answer, LinkAction};
use oprc::text_map::TextMap;

fn s(t: &str) -> String {
    t.to_string()
}

fn manager(list: &[&str]) -> NetsimManager {
    NetsimManager::new(CrmManager { clusters: list.iter().map(|t| t.to_string()).collect() })
}

fn pairs(calls: &Vec<NetsimCall>) -> Vec<(&str, &str)> {
    calls.iter().map(|c| (c.cluster.as_str(), c.peer.as_str())).collect()
}

fn proxy(urls: &[(&str, &str)]) -> GatewayProxy {
    let mut map: TextMap<String> = TextMap::new();
    for (k, v) in urls {
        map.insert(s(k), s(v));
    }
    GatewayProxy::with_env_gateways(s("http://default:80//"), map, 30)
}

fn header(name: &str, value: &[u8]) -> Header {
    Header { name: s(name), value: value.to_vec() }
}

fn url_of(proxy: &GatewayProxy, env: Option<&str>, path: &str, query: Option<&str>) -> String {
    forward_to_gateway(proxy, env, path, query, "GET", &vec![], vec![]).unwrap().url
}

#[test]
fn both_ends_of_a_link_are_told() {
    let mgr = manager(&["a", "b"]);
    let calls = mgr.partition_link("a", "b");
    assert_eq!(pairs(&calls), [("a", "b"), ("b", "a")]);
    assert!(calls.iter().all(|c| c.action == NetsimAction::Partition && c.latency_ms == 0));
    let calls = mgr.heal_link("a", "b");
    assert!(calls.iter().all(|c| c.action == NetsimAction::Heal));
    let calls = mgr.set_link_latency("a", "b", 25);
    assert!(calls.iter().all(|c| c.action == NetsimAction::SetLatency && c.latency_ms == 25));
}

#[test]
fn an_environment_is_told_about_all_others() {
    let mgr = manager(&["a", "b", "c"]);
    assert_eq!(mgr.env_names(), ["a", "b", "c"]);
    let plan = mgr.partition_env("b");
    assert_eq!(plan.environments, ["a", "c"]);
    assert_eq!(pairs(&plan.calls), [("b", "a"), ("a", "b"), ("b", "c"), ("c", "b")]);
    let plan = mgr.heal_env("x");
    assert_eq!(plan.environments, ["a", "b", "c"]);
    assert_eq!(plan.calls.len(), 6);
}

#[test]
fn every_pair_is_told() {
    let mgr = manager(&["a", "b", "c"]);
    let plan = mgr.partition_all();
    assert_eq!(plan.environments, ["a", "b", "c"]);
    assert_eq!(
        pairs(&plan.calls),
        [("a", "b"), ("b", "a"), ("a", "c"), ("c", "a"), ("b", "c"), ("c", "b")]
    );
    assert!(mgr.heal_all().calls.iter().all(|c| c.action == NetsimAction::Heal));
    assert_eq!(manager(&["a"]).partition_all().calls.len(), 0);
}

#[test]
fn network_state_keeps_the_report_in_order() {
    let mgr = manager(&["b", "a", "c"]);
    let plan = mgr.status_calls();
    assert_eq!(pairs(&plan.calls), [("b", ""), ("a", ""), ("c", "")]);
    assert!(plan.calls.iter().all(|c| c.action == NetsimAction::GetStatus));
    let link = |peer: &str, connected: bool, latency_ms: u64| PeerLinkInfo {
        peer_env: s(peer),
        connected,
        latency_ms,
    };
    let replies = vec![
        Some(NetsimControlResponse {
            env_name: s("b"),
            links: vec![link("a", false, 9), link("c", true, 1)],
        }),
        Some(NetsimControlResponse { env_name: s("a"), links: vec![link("b", true, 0), link("c", true, 2)] }),
        None,
    ];
    let (envs, links) = get_network_state(plan.environments, &replies);
    assert_eq!(envs, ["b", "a", "c"]);
    let got: Vec<(&str, &str, bool, u64)> = links
        .iter()
        .map(|l| (l.env_a.as_str(), l.env_b.as_str(), l.connected, l.latency_ms))
        .collect();
    assert_eq!(got, [("a", "b", true, 0), ("a", "c", true, 2), ("b", "c", true, 1)]);
}

#[test]
fn network_state_does_not_depend_on_the_order_of_clusters() {
    let report = |env: &str, peer: &str, latency_ms: u64| {
        Some(NetsimControlResponse {
            env_name: s(env),
            links: vec![PeerLinkInfo { peer_env: s(peer), connected: true, latency_ms }],
        })
    };
    let listed = |replies: Vec<Option<NetsimControlResponse>>| {
        let (envs, links) = get_network_state(vec![s("edge"), s("cloud")], &replies);
        assert_eq!(envs, ["edge", "cloud"]);
        links
            .into_iter()
            .map(|l| (l.env_a, l.env_b, l.connected, l.latency_ms))
            .collect::<Vec<_>>()
    };
    let in_order = [(s("cloud"), s("edge"), true, 7)];
    assert_eq!(listed(vec![report("edge", "cloud", 5), report("cloud", "edge", 7)]), in_order);
    assert_eq!(listed(vec![report("cloud", "edge", 7), report("edge", "cloud", 5)]), in_order);
    assert_eq!(
        listed(vec![report("edge", "cloud", 5), report("cloud", "edge", 7), report("cloud", "edge", 8)]),
        in_order
    );
    assert_eq!(
        listed(vec![report("edge", "cloud", 5), report("edge", "cloud", 6), None]),
        [(s("edge"), s("cloud"), true, 5)]
    );
}

#[test]
fn simulation_requests_are_answered() {
    assert_eq!(link_answer(s("a"), s("b"), LinkAction::Partition).action, "partitioned");
    assert_eq!(link_answer(s("a"), s("b"), LinkAction::Heal).action, "healed");
    let answer = link_answer(s("a"), s("b"), LinkAction::SetLatency);
    assert_eq!(answer.action, "latency-updated");
    assert_eq!((answer.env_a, answer.env_b), (s("a"), s("b")));
    assert_eq!(env_answer(s("a"), false, vec![s("b")]).action, "partitioned-from-all");
    let answer = env_answer(s("a"), true, vec![s("b")]);
    assert_eq!(answer.action, "healed-to-all");
    assert_eq!(answer.affected_links, ["b"]);
    assert_eq!(bulk_answer(false, vec![]).action, "partitioned-all");
    assert_eq!(bulk_answer(true, vec![s("a")]).action, "healed-all");
}

#[test]
fn gateway_proxy_default_route() {
    let p = GatewayProxy::new(s("http://gateway:8080/"), 30);
    assert_eq!(p.base_url(), "http://gateway:8080");
    let path = target_path("/api/gateway/api/class/my.Cls/0/objects");
    assert_eq!(
        url_of(&p, None, &path, None),
        "http://gateway:8080/api/class/my.Cls/0/objects"
    );
    assert_eq!(p.env_names().len(), 0);
    let settings = p.settings();
    assert_eq!(settings.timeout_seconds, 30);
    assert_eq!(settings.connect_timeout_seconds, 10);
    assert_eq!(settings.tcp_keepalive_seconds, 60);
    assert_eq!(settings.pool_idle_timeout_seconds, 90);
    assert_eq!(settings.pool_max_idle_per_host, 10);
    assert!(settings.tcp_nodelay);
}

#[test]
fn gateway_proxy_env_route() {
    let p = proxy(&[("cloud", "http://cloud:1/"), ("edge", "http://edge:2")]);
    let path = "api/class/my.Cls/0/objects";
    assert_eq!(url_of(&p, Some("cloud"), path, None), "http://cloud:1/api/class/my.Cls/0/objects");
    assert_eq!(url_of(&p, Some("edge"), path, None), "http://edge:2/api/class/my.Cls/0/objects");
    let mut names = p.env_names();
    names.sort();
    assert_eq!(names, ["cloud", "edge"]);
}

#[test]
fn gateway_proxy_env_unknown_falls_back() {
    let p = proxy(&[]);
    assert_eq!(p.url_for_env(Some("nonexistent")), "http://default:80");
    assert_eq!(p.url_for_env(None), "http://default:80");
}

#[test]
fn gateway_proxy_preserves_query_string() {
    let p = proxy(&[]);
    let path = target_path("/api/gateway/api/class/my.Cls/0/objects");
    assert_eq!(
        url_of(&p, None, &path, Some("limit=10&offset=0")),
        "http://default:80/api/class/my.Cls/0/objects?limit=10&offset=0"
    );
}

#[test]
fn gateway_proxy_env_post_with_body() {
    let p = proxy(&[("edge", "http://edge:2")]);
    let body = br#"{"hello":"world"}"#.to_vec();
    let headers = vec![header("content-type", b"application/json")];
    let req = forward_to_gateway(
        &p,
        Some("edge"),
        "api/class/my.Cls/0/obj-1/echo",
        None,
        "POST",
        &headers,
        body.clone(),
    )
    .unwrap();
    assert_eq!(req.method, "POST");
    assert_eq!(req.url, "http://edge:2/api/class/my.Cls/0/obj-1/echo");
    assert_eq!(req.headers.len(), 1);
    assert_eq!(req.headers[0].name, "content-type");
    assert_eq!(req.headers[0].value, "application/json");
    assert_eq!(req.body, Some(body));
}

#[test]
fn paths_lose_their_prefix() {
    assert_eq!(target_path("/api/gateway/x/y"), "x/y");
    assert_eq!(target_path("/api/gateway"), "");
    assert_eq!(target_path("/api/gatewayx"), "x");
    assert_eq!(target_path("/other"), "");
}

#[test]
fn requests_lose_connection_headers() {
    let p = proxy(&[]);
    let headers = vec![
        header("Host", b"x"),
        header("Connection", b"close"),
        header("keep-alive", b"1"),
        header("Transfer-Encoding", b"chunked"),
        header("TE", b"x"),
        header("trailer", b"x"),
        header("x-text", b"tab\tand space"),
        header("x-bytes", &[0xFF, 0x41]),
        header("x-utf8", "ä".as_bytes()),
    ];
    let req = forward_to_gateway(&p, None, "", None, "HEAD", &headers, vec![]).unwrap();
    assert_eq!(req.headers.len(), 1);
    assert_eq!(req.headers[0].name, "x-text");
    assert_eq!(req.headers[0].value, "tab\tand space");
    assert_eq!(req.body, None);
    assert!(hop_by_hop("Keep-Alive"));
    assert!(!hop_by_hop("host"));
}

#[test]
fn methods_are_checked() {
    let p = proxy(&[]);
    for m in ["GET", "POST", "PUT", "DELETE", "PATCH", "HEAD"] {
        assert!(forward_to_gateway(&p, None, "", None, m, &vec![], vec![]).is_ok());
    }
    for m in ["OPTIONS", "get", ""] {
        match forward_to_gateway(&p, None, "", None, m, &vec![], vec![]) {
            Err(ApiError::BadRequest(text)) => assert_eq!(text, format!("Unsupported method: {m}")),
            other => panic!("{:?}", other),
        }
    }
}

#[test]
fn responses_pass_back() {
    let headers = vec![
        header("Host", b"x"),
        header("Connection", b"close"),
        header("x-bytes", &[0xFF, 0x41]),
    ];
    let r = response_from_gateway(404, &headers, b"gone".to_vec());
    assert_eq!(r.status, 404);
    assert_eq!(r.body, b"gone");
    let names: Vec<&str> = r.headers.iter().map(|h| h.name.as_str()).collect();
    assert_eq!(names, ["Host", "x-bytes"]);
    assert_eq!(r.headers[1].value, [0xFF, 0x41]);
    assert_eq!(response_from_gateway(99, &vec![], vec![]).status, 502);
    assert_eq!(response_from_gateway(1000, &vec![], vec![]).status, 502);
    assert_eq!(response_from_gateway(100, &vec![], vec![]).status, 100);
    assert_eq!(response_from_gateway(999, &vec![], vec![]).status, 999);
}

#[test]
fn requests_find_their_gateway() {
    let p = proxy(&[("edge", "http://edge:2")]);
    let req =
        gateway_proxy(Some(&p), "/api/gateway/x", Some("a=b"), "GET", &vec![], vec![]).unwrap();
    assert_eq!(req.url, "http://default:80/x?a=b");
    let req = gateway_proxy_env(Some(&p), "edge", "x", None, "PUT", &vec![], vec![1]).unwrap();
    assert_eq!(req.url, "http://edge:2/x");
    assert_eq!(req.body, Some(vec![1]));
    assert!(matches!(
        gateway_proxy(None, "/api/gateway/x", None, "GET", &vec![], vec![]),
        Err(ApiError::ServiceUnavailable(_))
    ));
    assert!(matches!(
        gateway_proxy_env(None, "edge", "x", None, "TRACE", &vec![], vec![]),
        Err(ApiError::ServiceUnavailable(_))
    ));
}

#[test]
fn failures_are_named() {
    let message = |e: ApiError| match e {
        ApiError::ServiceUnavailable(m) => ("unavailable", m),
        ApiError::InternalServerError(m) => ("internal", m),
        ApiError::BadRequest(m) => ("bad", m),
    };
    assert_eq!(
        message(not_configured()),
        (
            "unavailable",
            s("Gateway proxy not configured. Set GATEWAY_URL environment variable.")
        )
    );
    assert_eq!(
        message(step_failed(ForwardStep::ReadRequestBody, "x")),
        ("internal", s("Failed to read request body: x"))
    );
    assert_eq!(
        message(step_failed(ForwardStep::Send, "x")),
        ("unavailable", s("Gateway request failed: x"))
    );
    assert_eq!(
        message(step_failed(ForwardStep::ReadResponseBody, "x")),
        ("internal", s("Failed to read Gateway response: x"))
    );
    assert_eq!(
        message(step_failed(ForwardStep::BuildResponse, "x")),
        ("internal", s("Failed to build response: x"))
    );
}

#[test]
fn server_is_planned() {
    let artifact = || ArtifactConfig { dir: s("/data"), base_url: s("http://pm") };
    let plan = plan_server(AppConfig {
        compiler: Some(CompilerConfig { url: s("http://c"), timeout_seconds: 9, max_retries: 2 }),
        artifact: artifact(),
        netsim_enabled: Some(s("True")),
    });
    assert!(plan.netsim);
    let script = plan.script.unwrap();
    assert_eq!(script.compiler.url, "http://c");
    assert_eq!(script.compiler.max_retries, 2);
    assert_eq!(script.store_dir, "/data");
    assert_eq!(script.base_url, "http://pm");
    let plan = plan_server(AppConfig { compiler: None, artifact: artifact(), netsim_enabled: None });
    assert!(plan.script.is_none());
    assert!(!plan.netsim);
}
