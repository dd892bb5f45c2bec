//! Messages between the controller of a network simulation and a router.
//!
//! A controller sends a [`NetsimCommand`] to the router of an environment, which answers
//! with a [`NetsimResponse`].
use vstd::prelude::*;
use vstd::string::*;
use crate::netsim::types::{LinkState, LinkView};
use crate::text::chars::views;

verus! {

/// Key expression prefix for netsim ZRPC queryables.
pub const NETSIM_KEY_PREFIX: &'static str = "oprc/netsim";

/// The service through which the router of an environment is controlled.
pub fn service_id(env_name: &str) -> (r: String)
    ensures
        r@ == "oprc/netsim"@ + "/"@ + env_name@,
{
    let mut r: String = NETSIM_KEY_PREFIX.to_owned();
    r.append("/");
    r.append(env_name);
    r
}

/// Command sent from PM to a router.
#[derive(Debug)]
pub enum NetsimCommand {
    /// Partition this router from the named peer.
    Partition { peer: String },
    /// Heal the link to the named peer.
    Heal { peer: String },
    /// Set latency (in ms) on the link to the named peer.
    SetLatency { peer: String, latency_ms: u64 },
    /// Get the current link status for all peers on this router.
    GetStatus,
}

/// Info about one peer link on a router.
#[derive(Debug)]
pub struct PeerLinkInfo {
    pub peer_env: String,
    pub connected: bool,
    pub latency_ms: u64,
}

/// Response from the router.
#[derive(Debug)]
pub enum NetsimResponse {
    Success { env_name: String, links: Vec<PeerLinkInfo> },
    Error { message: String },
}

/// The link of a router to one of its peers.
pub open spec fn peer_link(env_name: Seq<char>, info: PeerLinkInfo) -> LinkView {
    LinkView {
        env_a: env_name,
        env_b: info.peer_env@,
        connected: info.connected,
        latency_ms: info.latency_ms,
    }
}

/// The links of a router to its peers.
pub open spec fn peer_links(env_name: Seq<char>, links: Seq<PeerLinkInfo>) -> Seq<LinkView> {
    Seq::new(links.len(), |i: int| peer_link(env_name, links[i]))
}

impl NetsimResponse {
    /// The links that a response reports: none where it is an error.
    pub open spec fn reported(self) -> Seq<LinkView> {
        match self {
            NetsimResponse::Success { env_name, links } => peer_links(env_name@, links@),
            NetsimResponse::Error { .. } => seq![],
        }
    }

    /// Convert all peer link infos into full `LinkState`s.
    pub fn into_link_states(self) -> (r: Vec<LinkState>)
        ensures
            views(r@) == self.reported(),
    {
        let mut r: Vec<LinkState> = Vec::new();
        match self {
            NetsimResponse::Success { env_name, links } => {
                let mut i: usize = 0;
                while i < links.len()
                    invariant
                        i <= links@.len(),
                        views(r@) == peer_links(env_name@, links@).take(i as int),
                    decreases links@.len() - i,
                {
                    let ghost before = r@;
                    r.push(
                        LinkState {
                            env_a: env_name.clone(),
                            env_b: links[i].peer_env.clone(),
                            connected: links[i].connected,
                            latency_ms: links[i].latency_ms,
                        },
                    );
                    assert(views(r@) =~= views(before).push(peer_link(env_name@, links@[i as int])));
                    i += 1;
                }
            },
            NetsimResponse::Error { message } => {},
        }
        r
    }
}

} // verus!
