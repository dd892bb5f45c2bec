//! What the functions of the package manager give back, whatever they are given.
use vstd::prelude::*;
use vstd::string::*;
use crate::crm::{NetsimAction, NetsimControlResponse};
use crate::keyed::{lemma_table_at, place, present};
use crate::netsim::types::{in_link_order, link_model, link_pair, link_table, LinkState};
use crate::pm::bootstrap::{plan_server, AppConfig, ServerPlan};
use crate::pm::gateway_laws::{law_gateway_path, law_request_is_forwarded};
use crate::pm::gateway_proxy::{
    bare_url, forward_to_gateway, gateway_path, gateway_proxy, gateway_proxy_env, hop_by_hop,
    is_hop_by_hop, is_supported, not_configured, request_headers, response_from_gateway,
    response_headers, step_failed, target_path, ApiError, ClientSettings, ForwardStep, GatewayProxy,
    GatewayRequest, Header, ProxyResponse,
};
use crate::pm::laws::{
    answered, law_first_end_is_believed, law_network_state, law_other_end_is_believed_alone,
    link_of, tells,
};
use crate::pm::netsim::{
    get_network_state, mesh_calls, others_than, star_calls, status_questions, NetsimCall,
    NetsimManager, NetsimPlan,
};
use crate::pm::network_sim::{
    bulk_answer, env_answer, link_answer, BulkActionResponse, EnvActionResponse, LinkAction,
    LinkActionResponse,
};
use crate::router::switched_on;
use crate::text::chars::{text_view, views};
use crate::text::order::text_le;
use crate::text_map::TextMap;

verus! {

/// The state of the network: every link that any environment reports is listed, whatever the
/// others answer and whether they do; every listed link was reported as it is listed; none is
/// listed twice; and the list is in order.
pub proof fn law_state_of_the_network(
    envs: Vec<String>,
    replies: &Vec<Option<NetsimControlResponse>>,
    r: (Vec<String>, Vec<LinkState>),
    i: int,
    j: int,
    n: int,
)
    requires
        call_ensures(get_network_state, (envs, replies), r),
    ensures
        r.0 == envs,
        in_link_order(r.1@),
        answered(replies@, i, j) ==> exists|k: int|
            0 <= k < r.1@.len() && ((#[trigger] r.1@[k]@.env_a, r.1@[k]@.env_b) == (
                replies@[i]->0.env_name@,
                replies@[i]->0.links@[j].peer_env@,
            ) || (r.1@[k]@.env_b, r.1@[k]@.env_a) == (
                replies@[i]->0.env_name@,
                replies@[i]->0.links@[j].peer_env@,
            )),
        0 <= n < r.1@.len() ==> exists|p: int, q: int| #[trigger]
            answered(replies@, p, q) && r.1@[n]@ == link_of(replies@[p]->0, q),
        forall|p: int, q: int|
            0 <= p < q < r.1@.len() ==> !((#[trigger] r.1@[p]@).env_a == (
            #[trigger] r.1@[q]@).env_a && r.1@[p]@.env_b == r.1@[q]@.env_b) && !(r.1@[p]@.env_a
                == r.1@[q]@.env_b && r.1@[p]@.env_b == r.1@[q]@.env_a),
{
    law_network_state(r.1@, replies@, i, j, n);
}

/// Of the reports of a link the first from the end that comes first by name is listed, before any
/// report from the other end; a link that only the other end reports is listed as that end
/// reports it first.
pub proof fn law_report_that_is_listed(
    envs: Vec<String>,
    replies: &Vec<Option<NetsimControlResponse>>,
    r: (Vec<String>, Vec<LinkState>),
    i: int,
    j: int,
    a: Seq<char>,
    b: Seq<char>,
)
    requires
        call_ensures(get_network_state, (envs, replies), r),
        tells(replies@, i, j, a, b),
        forall|p: int, q: int| #[trigger]
            tells(replies@, p, q, a, b) ==> i < p || (i == p && j <= q),
        text_le(a, b) || forall|p: int, q: int| !(#[trigger] tells(replies@, p, q, b, a)),
    ensures
        exists|k: int| 0 <= k < r.1@.len() && #[trigger] r.1@[k]@ == link_of(replies@[i]->0, j),
{
    let key = if text_le(a, b) {
        (a, b)
    } else {
        (b, a)
    };
    if text_le(a, b) {
        law_first_end_is_believed(replies@, i, j, a, b);
    } else {
        law_other_end_is_believed_alone(replies@, i, j, a, b);
    }
    let links = r.1@;
    assert(link_table(links).contains_key(key));
    assert(present(links, link_pair(), key));
    let k = place(links, link_pair(), key);
    assert(link_pair()(links[k]) == key);
    lemma_table_at(links, link_pair(), link_model(), k);
    assert(links[k]@ == link_of(replies@[i]->0, j));
}

/// A command for a link goes to both of its ends, each with the name of the other: to cut it, to
/// restore it, or to set its delay.
pub proof fn law_link_commands(
    m: &NetsimManager,
    a: &str,
    b: &str,
    latency_ms: u64,
    cut: Vec<NetsimCall>,
    healed: Vec<NetsimCall>,
    delayed: Vec<NetsimCall>,
)
    requires
        call_ensures(NetsimManager::partition_link, (m, a, b), cut),
        call_ensures(NetsimManager::heal_link, (m, a, b), healed),
        call_ensures(NetsimManager::set_link_latency, (m, a, b, latency_ms), delayed),
    ensures
        cut@.len() == 2 && healed@.len() == 2 && delayed@.len() == 2,
        cut@[0].cluster@ == a@ && cut@[0].peer@ == b@ && cut@[1].cluster@ == b@ && cut@[1].peer@
            == a@,
        cut@[0].action is Partition && cut@[1].action is Partition,
        healed@[0].cluster@ == a@ && healed@[0].peer@ == b@ && healed@[1].cluster@ == b@
            && healed@[1].peer@ == a@,
        healed@[0].action is Heal && healed@[1].action is Heal,
        delayed@[0].cluster@ == a@ && delayed@[0].peer@ == b@ && delayed@[1].cluster@ == b@
            && delayed@[1].peer@ == a@,
        delayed@[0].action is SetLatency && delayed@[1].action is SetLatency,
        delayed@[0].latency_ms == latency_ms && delayed@[1].latency_ms == latency_ms,
{
    let (c, h, d) = (views(cut@), views(healed@), views(delayed@));
    assert(c.len() == cut@.len() && h.len() == healed@.len() && d.len() == delayed@.len());
    assert(c[0] == cut@[0]@ && c[1] == cut@[1]@);
    assert(h[0] == healed@[0]@ && h[1] == healed@[1]@);
    assert(d[0] == delayed@[0]@ && d[1] == delayed@[1]@);
}

/// The commands for an environment concern all others, and those for all links each pair; the
/// environments that they concern are named, and everyone can be asked for its state.
pub proof fn law_wide_commands(
    m: &NetsimManager,
    env: &str,
    cut_env: NetsimPlan,
    heal_env: NetsimPlan,
    cut_all: NetsimPlan,
    heal_all: NetsimPlan,
    status: NetsimPlan,
    names: Vec<String>,
)
    requires
        call_ensures(NetsimManager::partition_env, (m, env), cut_env),
        call_ensures(NetsimManager::heal_env, (m, env), heal_env),
        call_ensures(NetsimManager::partition_all, (m,), cut_all),
        call_ensures(NetsimManager::heal_all, (m,), heal_all),
        call_ensures(NetsimManager::status_calls, (m,), status),
        call_ensures(NetsimManager::env_names, (m,), names),
    ensures
        ({
            let all = views(m.crm_manager.clusters@);
            let others = others_than(all, env@);
            let n = all.len() as int;
            &&& views(names@) == all
            &&& views(cut_env.environments@) == others && views(heal_env.environments@) == others
            &&& views(cut_env.calls@) == star_calls(env@, others, NetsimAction::Partition)
            &&& views(heal_env.calls@) == star_calls(env@, others, NetsimAction::Heal)
            &&& views(cut_all.environments@) == all && views(heal_all.environments@) == all
            &&& views(cut_all.calls@) == mesh_calls(all, NetsimAction::Partition, n)
            &&& views(heal_all.calls@) == mesh_calls(all, NetsimAction::Heal, n)
            &&& views(status.environments@) == all
            &&& views(status.calls@) == status_questions(all)
        }),
{
}

/// What is answered when commands were sent.
pub proof fn law_command_answers(
    a: String,
    b: String,
    action: LinkAction,
    link: LinkActionResponse,
    heal: bool,
    list: Vec<String>,
    env: EnvActionResponse,
    bulk: BulkActionResponse,
)
    requires
        call_ensures(link_answer, (a, b, action), link),
        call_ensures(env_answer, (a, heal, list), env),
        call_ensures(bulk_answer, (heal, list), bulk),
    ensures
        link.env_a == a && link.env_b == b,
        action is Partition ==> link.action@ == "partitioned"@,
        action is Heal ==> link.action@ == "healed"@,
        action is SetLatency ==> link.action@ == "latency-updated"@,
        env.env == a && env.affected_links == list,
        heal ==> env.action@ == "healed-to-all"@ && bulk.action@ == "healed-all"@,
        !heal ==> env.action@ == "partitioned-from-all"@ && bulk.action@ == "partitioned-all"@,
        bulk.environments == list,
{
}

/// Scripts are served exactly where a compiler is configured, with that compiler and the store of
/// artifacts, and the simulation is controlled exactly where it is switched on.
pub proof fn law_server_plan(config: AppConfig, r: ServerPlan)
    requires
        call_ensures(plan_server, (config,), r),
    ensures
        r.script is Some <==> config.compiler is Some,
        r.script matches Some(s) ==> s.compiler == config.compiler->0 && s.store_dir
            == config.artifact.dir && s.base_url == config.artifact.base_url,
        r.netsim <==> switched_on(text_view(config.netsim_enabled)),
{
}

/// A proxy is made with the default address and those of environments, without the slashes they
/// end with, and with the time for a request.
pub proof fn law_proxy_is_made(
    url: String,
    urls: TextMap<String>,
    seconds: u64,
    plain: GatewayProxy,
    full: GatewayProxy,
    env: Seq<char>,
)
    requires
        call_ensures(GatewayProxy::new, (url, seconds), plain),
        call_ensures(GatewayProxy::with_env_gateways, (url, urls, seconds), full),
    ensures
        plain@.base_url == bare_url(url@) && full@.base_url == bare_url(url@),
        plain@.settings.timeout_seconds == seconds && full@.settings.timeout_seconds == seconds,
        plain@.settings.connect_timeout_seconds == 10 && full@.settings.connect_timeout_seconds
            == 10,
        !plain@.env_urls.contains_key(env),
        full@.env_urls.contains_key(env) == urls@.contains_key(env),
        urls@.contains_key(env) ==> full@.env_urls[env] == bare_url(urls@[env]@),
{
}

/// The gateway of an environment, with its own address where it has one.
pub proof fn law_gateway_is_chosen(
    proxy: &GatewayProxy,
    env: &str,
    own: &str,
    default: &str,
    base: &str,
)
    requires
        call_ensures(GatewayProxy::url_for_env, (proxy, Some(env)), own),
        call_ensures(GatewayProxy::url_for_env, (proxy, None), default),
        call_ensures(GatewayProxy::base_url, (proxy,), base),
    ensures
        default@ == proxy@.base_url && base@ == proxy@.base_url,
        proxy@.env_urls.contains_key(env@) ==> own@ == proxy@.env_urls[env@],
        !proxy@.env_urls.contains_key(env@) ==> own@ == proxy@.base_url,
{
}

/// Without a proxy nothing is forwarded, and a method that is not forwarded is refused; any other
/// request goes to the default gateway with the path behind `/api/gateway/`.
pub proof fn law_proxy_forwards(
    proxy: Option<&GatewayProxy>,
    path: &str,
    rest: Seq<char>,
    query: Option<&str>,
    method: &str,
    headers: &Vec<Header>,
    body: Vec<u8>,
    r: Result<GatewayRequest, ApiError>,
)
    requires
        call_ensures(gateway_proxy, (proxy, path, query, method, headers, body), r),
        path@ == "/api/gateway"@ + seq!['/'] + rest,
    ensures
        proxy is None ==> (r matches Err(ApiError::ServiceUnavailable(m)) && m@
            == "Gateway proxy not configured. Set GATEWAY_URL environment variable."@),
        proxy is Some && !is_supported(method@) ==> (r matches Err(ApiError::BadRequest(m)) && m@
            == "Unsupported method: "@ + method@),
        proxy is Some && is_supported(method@) ==> r is Ok && {
            let req = r->Ok_0;
            &&& req.method@ == method@
            &&& query matches Some(q) ==> req.url@ == proxy->0@.base_url + "/"@ + rest + "?"@ + q@
            &&& query is None ==> req.url@ == proxy->0@.base_url + "/"@ + rest
            &&& views(req.headers@) == request_headers(views(headers@))
            &&& body@.len() == 0 ==> req.body is None
            &&& body@.len() > 0 ==> req.body == Some(body)
        },
{
    law_gateway_path(rest, rest);
    law_request_is_forwarded(
        r,
        crate::pm::gateway_proxy::proxy_view(proxy),
        None,
        rest,
        crate::text::chars::str_view(query),
        method@,
        views(headers@),
        body,
    );
}

/// A request for an environment goes to the gateway of that environment, or to the default one
/// where it has none.
pub proof fn law_proxy_forwards_to_environment(
    proxy: Option<&GatewayProxy>,
    env: &str,
    rest: &str,
    query: Option<&str>,
    method: &str,
    headers: &Vec<Header>,
    body: Vec<u8>,
    r: Result<GatewayRequest, ApiError>,
)
    requires
        call_ensures(gateway_proxy_env, (proxy, env, rest, query, method, headers, body), r),
    ensures
        proxy is None ==> (r matches Err(ApiError::ServiceUnavailable(m)) && m@
            == "Gateway proxy not configured. Set GATEWAY_URL environment variable."@),
        proxy is Some && !is_supported(method@) ==> (r matches Err(ApiError::BadRequest(m)) && m@
            == "Unsupported method: "@ + method@),
        proxy is Some && is_supported(method@) ==> r is Ok && {
            let req = r->Ok_0;
            let gateway = if proxy->0@.env_urls.contains_key(env@) {
                proxy->0@.env_urls[env@]
            } else {
                proxy->0@.base_url
            };
            &&& req.method@ == method@
            &&& query matches Some(q) ==> req.url@ == gateway + "/"@ + rest@ + "?"@ + q@
            &&& query is None ==> req.url@ == gateway + "/"@ + rest@
            &&& views(req.headers@) == request_headers(views(headers@))
            &&& body@.len() == 0 ==> req.body is None
            &&& body@.len() > 0 ==> req.body == Some(body)
        },
{
    law_request_is_forwarded(
        r,
        crate::pm::gateway_proxy::proxy_view(proxy),
        Some(env@),
        rest@,
        crate::text::chars::str_view(query),
        method@,
        views(headers@),
        body,
    );
}

/// The answer of a gateway passes back with its body, the headers that pass, and its status, or
/// 502 where that is no status; paths and headers are judged as the models say.
pub proof fn law_answers_pass_back(
    status: u16,
    headers: &Vec<Header>,
    body: Vec<u8>,
    r: ProxyResponse,
    path: &str,
    target: String,
    name: &str,
    stops: bool,
)
    requires
        call_ensures(response_from_gateway, (status, headers, body), r),
        call_ensures(target_path, (path,), target),
        call_ensures(hop_by_hop, (name,), stops),
    ensures
        r.body == body,
        views(r.headers@) == response_headers(views(headers@)),
        100 <= status <= 999 ==> r.status == status,
        status < 100 || status > 999 ==> r.status == 502,
        target@ == gateway_path(path@),
        stops == is_hop_by_hop(name@),
{
}

/// A gateway that cannot be reached is unavailable; any other failure on the way is an internal
/// error; and each tells its cause.
pub proof fn law_failures_are_told(
    step: ForwardStep,
    cause: &str,
    r: ApiError,
    none: ApiError,
)
    requires
        call_ensures(step_failed, (step, cause), r),
        call_ensures(not_configured, (), none),
    ensures
        step is Send ==> (r matches ApiError::ServiceUnavailable(m) && m@
            == "Gateway request failed: "@ + cause@),
        step is ReadRequestBody ==> (r matches ApiError::InternalServerError(m) && m@
            == "Failed to read request body: "@ + cause@),
        step is ReadResponseBody ==> (r matches ApiError::InternalServerError(m) && m@
            == "Failed to read Gateway response: "@ + cause@),
        step is BuildResponse ==> (r matches ApiError::InternalServerError(m) && m@
            == "Failed to build response: "@ + cause@),
        none matches ApiError::ServiceUnavailable(m) && m@
            == "Gateway proxy not configured. Set GATEWAY_URL environment variable."@,
{
}

/// A request is forwarded to the gateway that is chosen, with the path that it is given.
pub proof fn law_forwarding(
    proxy: &GatewayProxy,
    env: Option<&str>,
    path: &str,
    query: Option<&str>,
    method: &str,
    headers: &Vec<Header>,
    body: Vec<u8>,
    r: Result<GatewayRequest, ApiError>,
    names: Vec<String>,
    name: Seq<char>,
    settings: ClientSettings,
)
    requires
        call_ensures(forward_to_gateway, (proxy, env, path, query, method, headers, body), r),
        call_ensures(GatewayProxy::env_names, (proxy,), names),
        call_ensures(GatewayProxy::settings, (proxy,), settings),
    ensures
        !is_supported(method@) ==> (r matches Err(ApiError::BadRequest(m)) && m@
            == "Unsupported method: "@ + method@),
        is_supported(method@) ==> r is Ok && {
            let req = r->Ok_0;
            let gateway = match env {
                Some(e) => if proxy@.env_urls.contains_key(e@) {
                    proxy@.env_urls[e@]
                } else {
                    proxy@.base_url
                },
                None => proxy@.base_url,
            };
            &&& req.method@ == method@
            &&& query matches Some(q) ==> req.url@ == gateway + "/"@ + path@ + "?"@ + q@
            &&& query is None ==> req.url@ == gateway + "/"@ + path@
            &&& views(req.headers@) == request_headers(views(headers@))
            &&& body@.len() == 0 ==> req.body is None
            &&& body@.len() > 0 ==> req.body == Some(body)
        },
        views(names@).no_duplicates(),
        views(names@).contains(name) <==> proxy@.env_urls.contains_key(name),
        settings == proxy@.settings,
{
    law_request_is_forwarded(
        r,
        Some(proxy@),
        crate::text::chars::str_view(env),
        path@,
        crate::text::chars::str_view(query),
        method@,
        views(headers@),
        body,
    );
    assert(views(names@).to_set().contains(name) == proxy@.env_urls.dom().contains(name));
}

} // verus!
