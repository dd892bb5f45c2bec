use oprc::crm::{call_failed, command_for, control_reply, NetsimAction, NetsimControlRequest};
use oprc::netsim::types::LinkChecker;
use oprc::netsim::zrpc_types::{NetsimCommand, NetsimResponse, PeerLinkInfo};
use oprc::router::{
    is_switched_on, parse_peers, patched_peers, pre_session_plan, rewritten_peers, worker_threads,
    NetsimPeer, RouterNetsimState,
};

fn s(t: &str) -> String {
    t.to_string()
}

fn state() -> RouterNetsimState {
    let peers = vec![
        NetsimPeer { env_name: s("edge"), addr: s("h:1") },
        NetsimPeer { env_name: s("fog"), addr: s("h:2") },
    ];
    RouterNetsimState::new(s("cloud"), &peers)
}

fn reported(r: Result<NetsimResponse, String>) -> Vec<(String, bool, u64)> {
    match r.unwrap() {
        NetsimResponse::Success { env_name, links } => {
            assert_eq!(env_name, "cloud");
            let mut list: Vec<(String, bool, u64)> =
                links.into_iter().map(|l| (l.peer_env, l.connected, l.latency_ms)).collect();
            list.sort();
            list
        },
        NetsimResponse::Error { message } => panic!("{}", message),
    }
}

#[test]
fn peers_are_parsed() {
    let peers = parse_peers(" edge = host1:7447 , fog=host2:7447=x,broken,,cloud=");
    let got: Vec<(&str, &str)> =
        peers.iter().map(|p| (p.env_name.as_str(), p.addr.as_str())).collect();
    assert_eq!(got, [("edge", "host1:7447"), ("fog", "host2:7447=x"), ("cloud", "")]);
    assert_eq!(parse_peers("").len(), 0);
    assert_eq!(parse_peers("a=1,b=2").len(), parse_peers("a=1").len() + parse_peers("b=2").len());
}

#[test]
fn commands_are_obeyed() {
    let mut router = state();
    assert!(router.is_active("cloud", "edge"));
    assert_eq!(
        reported(router.handle(NetsimCommand::SetLatency { peer: s("edge"), latency_ms: 30 })),
        [(s("edge"), true, 30), (s("fog"), true, 0)]
    );
    assert_eq!(router.latency_ms("anything", "edge"), 30);
    assert_eq!(
        reported(router.handle(NetsimCommand::Partition { peer: s("edge") })),
        [(s("edge"), false, 30), (s("fog"), true, 0)]
    );
    assert!(!router.is_active("cloud", "edge"));
    assert_eq!(router.latency_ms("cloud", "edge"), 0);
    assert!(router.is_active("cloud", "fog"));
    let before = reported(router.handle(NetsimCommand::GetStatus));
    assert_eq!(reported(router.handle(NetsimCommand::Partition { peer: s("moon") })), before);
    assert_eq!(
        reported(router.handle(NetsimCommand::Heal { peer: s("edge") })),
        [(s("edge"), true, 0), (s("fog"), true, 0)]
    );
    assert!(!router.is_active("cloud", "moon"));
}

#[test]
fn sessions_are_planned() {
    let plan = pre_session_plan(Some(s("TRUE")), None, Some(s("edge=h:1"))).unwrap();
    assert_eq!(plan.env_name, "unknown");
    assert_eq!(plan.peers.len(), 1);
    let plan = pre_session_plan(Some(s("true")), Some(s("c")), Some(s("edge=h:1"))).unwrap();
    assert_eq!(plan.env_name, "c");
    assert!(pre_session_plan(Some(s("true")), Some(s("c")), Some(s("nothing"))).is_none());
    assert!(pre_session_plan(Some(s("true")), Some(s("c")), None).is_none());
    assert!(pre_session_plan(Some(s("1")), Some(s("c")), Some(s("edge=h:1"))).is_none());
    assert!(pre_session_plan(None, Some(s("c")), Some(s("edge=h:1"))).is_none());
    assert!(is_switched_on(&Some(s("True"))));
    assert!(!is_switched_on(&None));
}

#[test]
fn endpoints_are_rewritten() {
    assert_eq!(rewritten_peers(&vec![1, 65535]), ["tcp/127.0.0.1:1", "tcp/127.0.0.1:65535"]);
    assert_eq!(patched_peers(&vec![1, 2]), "tcp/127.0.0.1:1,tcp/127.0.0.1:2");
    assert_eq!(worker_threads(0), 1);
    assert_eq!(worker_threads(8), 8);
}

#[test]
fn control_requests_become_commands() {
    let request = |action| NetsimControlRequest { action, peer: s("edge"), latency_ms: 12 };
    assert!(matches!(command_for(request(NetsimAction::GetStatus)), NetsimCommand::GetStatus));
    assert!(matches!(
        command_for(request(NetsimAction::Partition)),
        NetsimCommand::Partition { peer } if peer == "edge"
    ));
    assert!(matches!(
        command_for(request(NetsimAction::Heal)),
        NetsimCommand::Heal { peer } if peer == "edge"
    ));
    assert!(matches!(
        command_for(request(NetsimAction::SetLatency)),
        NetsimCommand::SetLatency { peer, latency_ms: 12 } if peer == "edge"
    ));
}

#[test]
fn router_answers_become_replies() {
    let links = vec![PeerLinkInfo { peer_env: s("edge"), connected: true, latency_ms: 3 }];
    let reply =
        control_reply(NetsimResponse::Success { env_name: s("cloud"), links }).unwrap();
    assert_eq!(reply.env_name, "cloud");
    assert_eq!(reply.links[0].peer_env, "edge");
    assert_eq!(
        control_reply(NetsimResponse::Error { message: s("broken") }).unwrap_err(),
        "broken"
    );
    assert_eq!(call_failed("timeout"), "ZRPC call failed: timeout");
}
