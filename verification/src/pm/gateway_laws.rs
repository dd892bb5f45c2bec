//! What passes the proxy in front of the gateways, and where it goes.
use vstd::prelude::*;
use vstd::string::*;
use crate::pm::gateway_proxy::{
    bare_url, bare_urls, client_settings, forwards, gateway_path, is_hop_by_hop, is_supported,
    request_headers, response_headers, step_message, target_url, ApiError, ForwardStep,
    GatewayRequest, HeaderView, ProxyView, TextHeaderView,
};
use crate::text::chars::views;
use crate::text::laws::law_without_tail;
use crate::text::search::lowered;

verus! {

/// An environment with a gateway of its own is served by it, and any other by the default one.
pub proof fn law_own_gateway_serves(proxy: ProxyView, env: Seq<char>)
    ensures
        proxy.env_urls.contains_key(env) ==> proxy.url_for(Some(env)) == proxy.env_urls[env],
        !proxy.env_urls.contains_key(env) ==> proxy.url_for(Some(env)) == proxy.base_url,
        proxy.url_for(None) == proxy.base_url,
{
}

/// The address of a gateway loses the slashes it ends with and nothing else, and each environment
/// keeps its own.
pub proof fn law_addresses_lose_slashes(
    url: Seq<char>,
    n: nat,
    urls: Map<Seq<char>, Seq<char>>,
    env: Seq<char>,
)
    requires
        url.len() > 0 ==> url.last() != '/',
    ensures
        bare_url(url + Seq::new(n, |i: int| '/')) == url,
        bare_urls(urls).contains_key(env) == urls.contains_key(env),
        urls.contains_key(env) && urls[env] == url + Seq::new(n, |i: int| '/') ==> bare_urls(
            urls,
        )[env] == url,
{
    law_without_tail(url, '/', n);
}

/// The limits of the client: the time for a request is given, and the others never change.
pub proof fn law_client_settings(timeout_seconds: u64)
    ensures
        client_settings(timeout_seconds).timeout_seconds == timeout_seconds,
        client_settings(timeout_seconds).connect_timeout_seconds == 10,
        client_settings(timeout_seconds).tcp_nodelay,
        client_settings(timeout_seconds).tcp_keepalive_seconds == 60,
        client_settings(timeout_seconds).pool_idle_timeout_seconds == 90,
        client_settings(timeout_seconds).pool_max_idle_per_host == 10,
{
}

/// The path at the gateway is what stands behind `/api/gateway` and one slash. Without the slash
/// it is what stands behind the prefix, and without the prefix there is none.
pub proof fn law_gateway_path(rest: Seq<char>, other: Seq<char>)
    ensures
        gateway_path("/api/gateway"@ + seq!['/'] + rest) == rest,
        rest.len() == 0 || rest[0] != '/' ==> gateway_path("/api/gateway"@ + rest) == rest,
        !"/api/gateway"@.is_prefix_of(other) ==> gateway_path(other).len() == 0,
{
    reveal_strlit("/api/gateway");
    reveal_strlit("/api/gateway/");
    let long = "/api/gateway/"@;
    let short = "/api/gateway"@;
    assert(long =~= short + seq!['/']);
    let a = short + seq!['/'] + rest;
    assert(long =~= a.subrange(0, 13));
    assert(a.skip(13) =~= rest);
    let b = short + rest;
    assert(short =~= b.subrange(0, 12));
    assert(b.skip(12) =~= rest);
    if long.is_prefix_of(b) {
        assert(b[12] == long[12]);
        assert(b[12] == rest[0]);
    }
    if long.is_prefix_of(other) {
        assert(short =~= other.subrange(0, 12)) by {
            assert(long =~= other.subrange(0, 13));
            assert forall|i: int| 0 <= i < 12 implies short[i] == other[i] by {
                assert(long[i] == other[i]);
            }
        }
    }
}

/// Whether the bytes of a header value are characters that can be shown.
pub open spec fn readable(value: Seq<u8>) -> bool {
    forall|i: int| 0 <= i < value.len() ==> (32 <= #[trigger] value[i] < 127 || value[i] == 9)
}

/// Whether a name in small letters is that of a header of one connection.
pub open spec fn of_one_connection(low: Seq<char>) -> bool {
    low == "connection"@ || low == "keep-alive"@ || low == "transfer-encoding"@ || low == "te"@
        || low == "trailer"@
}

/// A header passes to the gateway, behind those before it and with the same value, unless it
/// belongs to one connection, names the host or is no text, in whatever letter case its name is.
pub proof fn law_request_header_passes(headers: Seq<HeaderView>, h: HeaderView)
    ensures
        request_headers(seq![]).len() == 0,
        ({
            let before = request_headers(headers);
            let after = request_headers(headers.push(h));
            let low = lowered(h.name);
            if readable(h.value) && low != "host"@ && !of_one_connection(low) {
                after == before.push(
                    TextHeaderView {
                        name: h.name,
                        value: Seq::new(h.value.len(), |i: int| h.value[i] as char),
                    },
                )
            } else {
                after == before
            }
        }),
{
    assert(headers.push(h).drop_last() =~= headers);
    if !readable(h.value) {
        let i = choose|i: int|
            0 <= i < h.value.len() && !(32 <= #[trigger] h.value[i] < 127 || h.value[i] == 9);
        assert(!crate::web::is_visible(h.value[i]));
    }
}

/// A header passes back from the gateway unchanged, behind those before it, unless it belongs to
/// one connection.
pub proof fn law_response_header_passes(headers: Seq<HeaderView>, h: HeaderView)
    ensures
        response_headers(seq![]).len() == 0,
        of_one_connection(lowered(h.name)) ==> response_headers(headers.push(h))
            == response_headers(headers),
        !of_one_connection(lowered(h.name)) ==> response_headers(headers.push(h))
            == response_headers(headers).push(h),
        is_hop_by_hop(h.name) <==> of_one_connection(lowered(h.name)),
{
    assert(headers.push(h).drop_last() =~= headers);
}

/// The methods that are forwarded.
pub proof fn law_forwarded_methods(method: Seq<char>)
    ensures
        is_supported(method) <==> seq![
            "GET"@,
            "POST"@,
            "PUT"@,
            "DELETE"@,
            "PATCH"@,
            "HEAD"@,
        ].contains(method),
{
    let all = seq!["GET"@, "POST"@, "PUT"@, "DELETE"@, "PATCH"@, "HEAD"@];
    assert(all[0] == "GET"@ && all[1] == "POST"@ && all[2] == "PUT"@ && all[3] == "DELETE"@
        && all[4] == "PATCH"@ && all[5] == "HEAD"@);
}

/// What becomes of a request. Without a proxy the service is unavailable, whatever is asked; a
/// method that is not forwarded is a bad request; and any other request goes to the gateway of
/// its environment with the same method, path and query, with the headers that pass, and with its
/// body, where it has one.
pub proof fn law_request_is_forwarded(
    r: Result<GatewayRequest, ApiError>,
    proxy: Option<ProxyView>,
    env: Option<Seq<char>>,
    path: Seq<char>,
    query: Option<Seq<char>>,
    method: Seq<char>,
    headers: Seq<HeaderView>,
    body: Vec<u8>,
)
    requires
        forwards(r, proxy, env, path, query, method, headers, body),
    ensures
        proxy is None ==> (r matches Err(ApiError::ServiceUnavailable(m)) && m@
            == "Gateway proxy not configured. Set GATEWAY_URL environment variable."@),
        proxy is Some && !is_supported(method) ==> (r matches Err(ApiError::BadRequest(m)) && m@
            == "Unsupported method: "@ + method),
        proxy is Some && is_supported(method) ==> r is Ok && {
            let req = r->Ok_0;
            let gateway = match env {
                Some(e) => if proxy->0.env_urls.contains_key(e) {
                    proxy->0.env_urls[e]
                } else {
                    proxy->0.base_url
                },
                None => proxy->0.base_url,
            };
            &&& req.method@ == method
            &&& query matches Some(q) ==> req.url@ == gateway + "/"@ + path + "?"@ + q
            &&& query is None ==> req.url@ == gateway + "/"@ + path
            &&& views(req.headers@) == request_headers(headers)
            &&& body@.len() == 0 ==> req.body is None
            &&& body@.len() > 0 ==> req.body == Some(body)
        },
{
    if proxy is Some {
        let base = proxy->0.url_for(env) + "/"@ + path;
        match query {
            Some(q) => {
                assert(target_url(proxy->0, env, path, query) =~= base + "?"@ + q);
            },
            None => {
                assert(target_url(proxy->0, env, path, query) =~= base);
            },
        }
    }
}

/// What a failure on the way is called.
pub proof fn law_failures_on_the_way()
    ensures
        step_message(ForwardStep::ReadRequestBody) == "Failed to read request body: "@,
        step_message(ForwardStep::Send) == "Gateway request failed: "@,
        step_message(ForwardStep::ReadResponseBody) == "Failed to read Gateway response: "@,
        step_message(ForwardStep::BuildResponse) == "Failed to build response: "@,
{
}

} // verus!
