//! The bridge from control requests for the network simulation to router commands.
use vstd::prelude::*;
use vstd::string::*;
use crate::netsim::zrpc_types::{NetsimCommand, NetsimResponse, PeerLinkInfo};

verus! {

/// What a control request asks for.
#[derive(Debug, Clone, Copy, PartialEq, Eq, Structural)]
pub enum NetsimAction {
    GetStatus,
    Partition,
    Heal,
    SetLatency,
}

/// A control request for the router of an environment.
#[derive(Debug)]
pub struct NetsimControlRequest {
    pub action: NetsimAction,
    pub peer: String,
    pub latency_ms: u64,
}

/// The answer to a control request: the environment and its links.
#[derive(Debug)]
pub struct NetsimControlResponse {
    pub env_name: String,
    pub links: Vec<PeerLinkInfo>,
}

/// The command that carries a control request to the router.
pub fn command_for(req: NetsimControlRequest) -> (r: NetsimCommand)
    ensures
        match req.action {
            NetsimAction::GetStatus => r is GetStatus,
            NetsimAction::Partition => r == (NetsimCommand::Partition { peer: req.peer }),
            NetsimAction::Heal => r == (NetsimCommand::Heal { peer: req.peer }),
            NetsimAction::SetLatency => r == (NetsimCommand::SetLatency {
                peer: req.peer,
                latency_ms: req.latency_ms,
            }),
        },
{
    match req.action {
        NetsimAction::GetStatus => NetsimCommand::GetStatus,
        NetsimAction::Partition => NetsimCommand::Partition { peer: req.peer },
        NetsimAction::Heal => NetsimCommand::Heal { peer: req.peer },
        NetsimAction::SetLatency => NetsimCommand::SetLatency {
            peer: req.peer,
            latency_ms: req.latency_ms,
        },
    }
}

/// The message of the internal error when the router cannot be reached.
pub fn call_failed(error: &str) -> (r: String)
    ensures
        r@ == "ZRPC call failed: "@ + error@,
{
    let mut r: String = "ZRPC call failed: ".to_owned();
    r.append(error);
    r
}

/// The answer that carries what the router said: its links, or the message of an internal
/// error where it reports one.
pub fn control_reply(resp: NetsimResponse) -> (r: Result<NetsimControlResponse, String>)
    ensures
        match resp {
            NetsimResponse::Success { env_name, links } => r == Ok::<NetsimControlResponse, String>(
                NetsimControlResponse { env_name, links },
            ),
            NetsimResponse::Error { message } => r == Err::<NetsimControlResponse, String>(message),
        },
{
    match resp {
        NetsimResponse::Success { env_name, links } => Ok(NetsimControlResponse { env_name, links }),
        NetsimResponse::Error { message } => Err(message),
    }
}

/// A control request reaches the router as the command of its kind, for the same peer and with
/// the same delay, and what the router says comes back unchanged, an error as its message.
pub proof fn law_control_passes_through(
    req: NetsimControlRequest,
    r: NetsimCommand,
    resp: NetsimResponse,
    reply: Result<NetsimControlResponse, String>,
    error: &str,
    told: String,
)
    requires
        call_ensures(command_for, (req,), r),
        call_ensures(control_reply, (resp,), reply),
        call_ensures(call_failed, (error,), told),
    ensures
        req.action is GetStatus <==> r is GetStatus,
        req.action is Partition <==> r is Partition,
        req.action is Heal <==> r is Heal,
        req.action is SetLatency <==> r is SetLatency,
        r matches NetsimCommand::Partition { peer } ==> peer@ == req.peer@,
        r matches NetsimCommand::Heal { peer } ==> peer@ == req.peer@,
        r matches NetsimCommand::SetLatency { peer, latency_ms } ==> peer@ == req.peer@
            && latency_ms == req.latency_ms,
        reply is Ok <==> resp is Success,
        (resp matches NetsimResponse::Success { env_name, links } && reply matches Ok(c))
            ==> reply->Ok_0.env_name == resp->env_name && reply->Ok_0.links == resp->links,
        resp matches NetsimResponse::Error { message } ==> reply->Err_0 == message,
        told@ == "ZRPC call failed: "@ + error@,
{
}

} // verus!
