//! Answers to requests for the network simulation of all clusters.
use vstd::prelude::*;
use crate::netsim::types::LinkState;

verus! {

/// The environments and the links of the network.
#[derive(Debug)]
pub struct NetworkOverview {
    pub environments: Vec<String>,
    pub links: Vec<LinkState>,
}

/// What was done to a link.
#[derive(Debug)]
pub struct LinkActionResponse {
    pub env_a: String,
    pub env_b: String,
    pub action: String,
}

/// What was done to the links of an environment.
#[derive(Debug)]
pub struct EnvActionResponse {
    pub env: String,
    pub action: String,
    pub affected_links: Vec<String>,
}

/// What was done to every link.
#[derive(Debug)]
pub struct BulkActionResponse {
    pub action: String,
    pub environments: Vec<String>,
}

/// What a request does to links.
#[derive(Debug, Clone, Copy, PartialEq, Eq, Structural)]
pub enum LinkAction {
    Partition,
    Heal,
    SetLatency,
}

/// The answer to a request for one link.
pub fn link_answer(env_a: String, env_b: String, action: LinkAction) -> (r: LinkActionResponse)
    ensures
        r.env_a == env_a,
        r.env_b == env_b,
        r.action@ == match action {
            LinkAction::Partition => "partitioned"@,
            LinkAction::Heal => "healed"@,
            LinkAction::SetLatency => "latency-updated"@,
        },
{
    let action: String = match action {
        LinkAction::Partition => "partitioned".to_owned(),
        LinkAction::Heal => "healed".to_owned(),
        LinkAction::SetLatency => "latency-updated".to_owned(),
    };
    LinkActionResponse { env_a, env_b, action }
}

/// The answer to a request for all links of an environment.
pub fn env_answer(env: String, heal: bool, affected_links: Vec<String>) -> (r: EnvActionResponse)
    ensures
        r.env == env,
        r.affected_links == affected_links,
        r.action@ == if heal {
            "healed-to-all"@
        } else {
            "partitioned-from-all"@
        },
{
    let action: String = if heal {
        "healed-to-all".to_owned()
    } else {
        "partitioned-from-all".to_owned()
    };
    EnvActionResponse { env, action, affected_links }
}

/// The answer to a request for every link.
pub fn bulk_answer(heal: bool, environments: Vec<String>) -> (r: BulkActionResponse)
    ensures
        r.environments == environments,
        r.action@ == if heal {
            "healed-all"@
        } else {
            "partitioned-all"@
        },
{
    let action: String = if heal {
        "healed-all".to_owned()
    } else {
        "partitioned-all".to_owned()
    };
    BulkActionResponse { action, environments }
}

} // verus!
