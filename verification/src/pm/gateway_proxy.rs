//! The reverse proxy to the gateways: which request goes where, and what passes through.
//!
//! Requests under `/api/gateway/` go to the default gateway, those under
//! `/api/gateway/env/{env}/` to the gateway of an environment.
use vstd::prelude::*;
use vstd::string::*;
use crate::text::chars::{same, str_view, views};
use crate::text::search::{lowered, strip_prefix, to_lower, trim_end_char, without_tail};
use crate::text_map::{texts, TextMap};
use crate::web::{header_text, read_header, read_status};

verus! {

/// Why a request through the proxy fails.
#[derive(Debug)]
pub enum ApiError {
    ServiceUnavailable(String),
    InternalServerError(String),
    BadRequest(String),
}

/// How the client of the proxy connects. Times are in seconds.
#[derive(Debug, Clone, Copy, PartialEq, Eq, Structural)]
pub struct ClientSettings {
    pub timeout_seconds: u64,
    pub connect_timeout_seconds: u64,
    pub tcp_nodelay: bool,
    pub tcp_keepalive_seconds: u64,
    pub pool_idle_timeout_seconds: u64,
    pub pool_max_idle_per_host: usize,
}

/// The model of the proxy: its client, the default gateway and those of the environments.
#[verifier::ext_equal]
pub struct ProxyView {
    pub settings: ClientSettings,
    pub base_url: Seq<char>,
    pub env_urls: Map<Seq<char>, Seq<char>>,
}

/// Configuration for the Gateway proxy client.
///
/// Supports both a single gateway and one gateway per environment.
#[derive(Debug)]
pub struct GatewayProxy {
    settings: ClientSettings,
    base_url: String,
    env_urls: TextMap<String>,
}

impl View for GatewayProxy {
    type V = ProxyView;

    closed spec fn view(&self) -> ProxyView {
        ProxyView {
            settings: self.settings,
            base_url: self.base_url@,
            env_urls: texts(self.env_urls@),
        }
    }
}

/// The settings of a client that gives up on a request after some seconds.
pub open spec fn client_settings(timeout_seconds: u64) -> ClientSettings {
    ClientSettings {
        timeout_seconds,
        connect_timeout_seconds: 10,
        tcp_nodelay: true,
        tcp_keepalive_seconds: 60,
        pool_idle_timeout_seconds: 90,
        pool_max_idle_per_host: 10,
    }
}

/// An address without the slashes it ends with.
pub open spec fn bare_url(url: Seq<char>) -> Seq<char> {
    without_tail(url, '/')
}

/// Addresses without the slashes they end with.
pub open spec fn bare_urls(urls: Map<Seq<char>, Seq<char>>) -> Map<Seq<char>, Seq<char>> {
    urls.map_values(|u: Seq<char>| bare_url(u))
}

impl ProxyView {
    /// The gateway of an environment: its own where it has one, else the default.
    pub open spec fn url_for(self, env: Option<Seq<char>>) -> Seq<char> {
        match env {
            Some(name) => if self.env_urls.contains_key(name) {
                self.env_urls[name]
            } else {
                self.base_url
            },
            None => self.base_url,
        }
    }
}

impl GatewayProxy {
    /// A proxy with one gateway.
    pub fn new(base_url: String, timeout_seconds: u64) -> (r: Self)
        ensures
            r@ == (ProxyView {
                settings: client_settings(timeout_seconds),
                base_url: bare_url(base_url@),
                env_urls: Map::empty(),
            }),
    {
        let none: TextMap<String> = TextMap::new();
        assert(bare_urls(texts(none@)) =~= Map::<Seq<char>, Seq<char>>::empty());
        Self::with_env_gateways(base_url, none, timeout_seconds)
    }

    /// Create a proxy that can route to multiple gateways, one per env.
    pub fn with_env_gateways(
        default_url: String,
        env_urls: TextMap<String>,
        timeout_seconds: u64,
    ) -> (r: Self)
        ensures
            r@ == (ProxyView {
                settings: client_settings(timeout_seconds),
                base_url: bare_url(default_url@),
                env_urls: bare_urls(texts(env_urls@)),
            }),
    {
        let settings = ClientSettings {
            timeout_seconds,
            connect_timeout_seconds: 10,
            tcp_nodelay: true,
            tcp_keepalive_seconds: 60,
            pool_idle_timeout_seconds: 90,
            pool_max_idle_per_host: 10,
        };
        let base_url: String = trim_end_char(default_url.as_str(), '/');
        let names: Vec<String> = env_urls.keys();
        let mut urls: TextMap<String> = TextMap::new();
        let mut i: usize = 0;
        while i < names.len()
            invariant
                i <= names@.len(),
                forall|k: Seq<char>|
                    env_urls@.contains_key(k) == (exists|j: int|
                        0 <= j < names@.len() && (#[trigger] names@[j])@ == k),
                forall|k: Seq<char>| #[trigger]
                    urls@.contains_key(k) ==> env_urls@.contains_key(k) && urls@[k]@ == bare_url(
                        env_urls@[k]@,
                    ),
                forall|j: int| 0 <= j < i ==> urls@.contains_key((#[trigger] names@[j])@),
            decreases names@.len() - i,
        {
            assert(env_urls@.contains_key(names@[i as int]@));
            match env_urls.get(names[i].as_str()) {
                Some(url) => {
                    let bare: String = trim_end_char(url.as_str(), '/');
                    urls.insert(names[i].clone(), bare);
                },
                None => {},
            }
            i += 1;
        }
        proof {
            let want = bare_urls(texts(env_urls@));
            assert forall|k: Seq<char>| #[trigger]
                texts(urls@).contains_key(k) == want.contains_key(k) by {
                if env_urls@.contains_key(k) {
                    let j = choose|j: int| 0 <= j < names@.len() && (#[trigger] names@[j])@ == k;
                    assert(urls@.contains_key(names@[j]@));
                }
            }
            assert(texts(urls@) =~= want);
        }
        GatewayProxy { settings, base_url, env_urls: urls }
    }

    /// How the client connects.
    pub fn settings(&self) -> (r: ClientSettings)
        ensures
            r == self@.settings,
    {
        self.settings
    }

    /// The address of the default gateway.
    pub fn base_url(&self) -> (r: &str)
        ensures
            r@ == self@.base_url,
    {
        self.base_url.as_str()
    }

    /// Resolve the gateway base URL for a given environment.
    /// Falls back to `base_url` if no env-specific URL is configured.
    pub fn url_for_env(&self, env: Option<&str>) -> (r: &str)
        ensures
            r@ == self@.url_for(str_view(env)),
    {
        match env {
            Some(name) => match self.env_urls.get(name) {
                Some(url) => url.as_str(),
                None => self.base_url.as_str(),
            },
            None => self.base_url.as_str(),
        }
    }

    /// List available environment names.
    pub fn env_names(&self) -> (r: Vec<String>)
        ensures
            views(r@).no_duplicates(),
            views(r@).to_set() == self@.env_urls.dom(),
    {
        let entries: &Vec<(String, String)> = self.env_urls.entries();
        let r: Vec<String> = self.env_urls.keys();
        proof {
            let names = views(r@);
            assert forall|i: int, j: int|
                0 <= i < names.len() && 0 <= j < names.len() && i != j implies names[i]
                != names[j] by {
                let key = crate::text_map::entry_key::<String>();
                assert(names[i] == key(entries@[i]) && names[j] == key(entries@[j]));
                if i < j {
                    assert(key(entries@[i]) != key(entries@[j]));
                } else {
                    assert(key(entries@[j]) != key(entries@[i]));
                }
            }
            assert forall|k: Seq<char>|
                names.to_set().contains(k) == self@.env_urls.dom().contains(k) by {
                if self.env_urls@.contains_key(k) {
                    let i = choose|i: int| 0 <= i < r@.len() && (#[trigger] r@[i])@ == k;
                    assert(names[i] == k);
                }
                if names.contains(k) {
                    let i = choose|i: int| 0 <= i < names.len() && names[i] == k;
                    assert(r@[i]@ == k);
                }
            }
            assert(names.to_set() =~= self@.env_urls.dom());
        }
        r
    }
}

/// The error where no gateway is configured.
pub fn not_configured() -> (r: ApiError)
    ensures
        r matches ApiError::ServiceUnavailable(m) && m@
            == "Gateway proxy not configured. Set GATEWAY_URL environment variable."@,
{
    ApiError::ServiceUnavailable(
        "Gateway proxy not configured. Set GATEWAY_URL environment variable.".to_owned(),
    )
}

/// The path at the gateway for a request path: what follows `/api/gateway` and a slash.
pub open spec fn gateway_path(path: Seq<char>) -> Seq<char> {
    if "/api/gateway/"@.is_prefix_of(path) {
        path.skip("/api/gateway/"@.len() as int)
    } else if "/api/gateway"@.is_prefix_of(path) {
        path.skip("/api/gateway"@.len() as int)
    } else {
        seq![]
    }
}

/// The path at the default gateway for a request path.
pub fn target_path(path: &str) -> (r: String)
    ensures
        r@ == gateway_path(path@),
{
    match strip_prefix(path, "/api/gateway/") {
        Some(rest) => rest,
        None => match strip_prefix(path, "/api/gateway") {
            Some(rest) => rest,
            None => {
                let r: String = String::new();
                assert(r@ =~= seq![]);
                r
            },
        },
    }
}

/// The query of a request as it stands in an address.
pub open spec fn query_part(query: Option<Seq<char>>) -> Seq<char> {
    match query {
        Some(q) => "?"@ + q,
        None => seq![],
    }
}

/// The address to which a request is forwarded.
pub open spec fn target_url(
    proxy: ProxyView,
    env: Option<Seq<char>>,
    path: Seq<char>,
    query: Option<Seq<char>>,
) -> Seq<char> {
    proxy.url_for(env) + "/"@ + path + query_part(query)
}

/// A header as it came in.
#[derive(Debug)]
pub struct Header {
    pub name: String,
    pub value: Vec<u8>,
}

/// The model of a header as it came in.
#[verifier::ext_equal]
pub struct HeaderView {
    pub name: Seq<char>,
    pub value: Seq<u8>,
}

impl View for Header {
    type V = HeaderView;

    open spec fn view(&self) -> HeaderView {
        HeaderView { name: self.name@, value: self.value@ }
    }
}

/// A header whose value is a text.
#[derive(Debug)]
pub struct TextHeader {
    pub name: String,
    pub value: String,
}

/// The model of a header whose value is a text.
#[verifier::ext_equal]
pub struct TextHeaderView {
    pub name: Seq<char>,
    pub value: Seq<char>,
}

impl View for TextHeader {
    type V = TextHeaderView;

    open spec fn view(&self) -> TextHeaderView {
        TextHeaderView { name: self.name@, value: self.value@ }
    }
}

/// Whether a header belongs to one connection and does not pass a proxy.
pub open spec fn is_hop_by_hop(name: Seq<char>) -> bool {
    let n = lowered(name);
    ||| n == "connection"@
    ||| n == "keep-alive"@
    ||| n == "transfer-encoding"@
    ||| n == "te"@
    ||| n == "trailer"@
}

/// Whether a header belongs to one connection and does not pass a proxy.
pub fn hop_by_hop(name: &str) -> (r: bool)
    ensures
        r == is_hop_by_hop(name@),
{
    let low: String = to_lower(name);
    let n: &str = low.as_str();
    same(n, "connection") || same(n, "keep-alive") || same(n, "transfer-encoding") || same(n, "te")
        || same(n, "trailer")
}

/// The headers that pass to the gateway, in order: all but the host, those that belong to one
/// connection, and those whose value is no text.
pub open spec fn request_headers(headers: Seq<HeaderView>) -> Seq<TextHeaderView>
    decreases headers.len(),
{
    if headers.len() == 0 {
        seq![]
    } else {
        let before = request_headers(headers.drop_last());
        let h = headers.last();
        match header_text(h.value) {
            Some(t) if lowered(h.name) != "host"@ && !is_hop_by_hop(h.name) => before.push(
                TextHeaderView { name: h.name, value: t },
            ),
            _ => before,
        }
    }
}

/// The headers that pass back from the gateway, in order: all but those that belong to one
/// connection.
pub open spec fn response_headers(headers: Seq<HeaderView>) -> Seq<HeaderView>
    decreases headers.len(),
{
    if headers.len() == 0 {
        seq![]
    } else if is_hop_by_hop(headers.last().name) {
        response_headers(headers.drop_last())
    } else {
        response_headers(headers.drop_last()).push(headers.last())
    }
}

/// Whether the proxy forwards requests with a method.
pub open spec fn is_supported(method: Seq<char>) -> bool {
    ||| method == "GET"@
    ||| method == "POST"@
    ||| method == "PUT"@
    ||| method == "DELETE"@
    ||| method == "PATCH"@
    ||| method == "HEAD"@
}

/// A request to send to a gateway.
#[derive(Debug)]
pub struct GatewayRequest {
    pub method: String,
    pub url: String,
    pub headers: Vec<TextHeader>,
    pub body: Option<Vec<u8>>,
}

/// Builds the request to the gateway, or refuses the method. An empty body is left out.
pub fn forward_to_gateway(
    proxy: &GatewayProxy,
    env_name: Option<&str>,
    target_path: &str,
    query: Option<&str>,
    method: &str,
    headers: &Vec<Header>,
    body: Vec<u8>,
) -> (r: Result<GatewayRequest, ApiError>)
    ensures
        match r {
            Ok(req) => {
                &&& is_supported(method@)
                &&& req.method@ == method@
                &&& req.url@ == target_url(
                    proxy@,
                    str_view(env_name),
                    target_path@,
                    str_view(query),
                )
                &&& views(req.headers@) == request_headers(views(headers@))
                &&& req.body == if body@.len() > 0 {
                    Some(body)
                } else {
                    None
                }
            },
            Err(e) => {
                &&& !is_supported(method@)
                &&& e matches ApiError::BadRequest(m) && m@ == "Unsupported method: "@ + method@
            },
        },
{
    let mut url: String = proxy.url_for_env(env_name).to_owned();
    url.append("/");
    url.append(target_path);
    match query {
        Some(q) => {
            let ghost before = url@;
            url.append("?");
            url.append(q);
            assert(url@ =~= before + ("?"@ + q@));
        },
        None => {
            assert(url@ + Seq::<char>::empty() =~= url@);
        },
    }
    let supported: bool = same(method, "GET") || same(method, "POST") || same(method, "PUT")
        || same(method, "DELETE") || same(method, "PATCH") || same(method, "HEAD");
    if !supported {
        let mut text: String = "Unsupported method: ".to_owned();
        text.append(method);
        return Err(ApiError::BadRequest(text));
    }
    let ghost all = views(headers@);
    let mut passed: Vec<TextHeader> = Vec::new();
    let mut i: usize = 0;
    assert(views(passed@) =~= request_headers(all.take(0)));
    while i < headers.len()
        invariant
            i <= headers@.len(),
            all == views(headers@),
            views(passed@) == request_headers(all.take(i as int)),
        decreases headers@.len() - i,
    {
        proof {
            assert(all.take(i + 1).drop_last() =~= all.take(i as int));
            assert(all.take(i + 1).last() == headers@[i as int]@);
        }
        let ghost before = passed@;
        let name: &str = headers[i].name.as_str();
        let host: bool = same(to_lower(name).as_str(), "host");
        if !host && !hop_by_hop(name) {
            match read_header(&headers[i].value) {
                Some(value) => {
                    let h = TextHeader { name: name.to_owned(), value };
                    passed.push(h);
                    assert(views(passed@) =~= views(before).push(h@));
                },
                None => {},
            }
        }
        i += 1;
    }
    assert(all.take(i as int) =~= all);
    let body: Option<Vec<u8>> = if body.len() > 0 {
        Some(body)
    } else {
        None
    };
    Ok(GatewayRequest { method: method.to_owned(), url, headers: passed, body })
}

/// What a request through the proxy gives: the request to the gateway, or why there is none.
/// Without a proxy the service is unavailable, and a method that is not forwarded is a bad
/// request.
pub open spec fn forwards(
    r: Result<GatewayRequest, ApiError>,
    proxy: Option<ProxyView>,
    env: Option<Seq<char>>,
    path: Seq<char>,
    query: Option<Seq<char>>,
    method: Seq<char>,
    headers: Seq<HeaderView>,
    body: Vec<u8>,
) -> bool {
    match r {
        Ok(req) => {
            &&& proxy is Some
            &&& is_supported(method)
            &&& req.method@ == method
            &&& req.url@ == target_url(proxy->0, env, path, query)
            &&& views(req.headers@) == request_headers(headers)
            &&& req.body == if body@.len() > 0 {
                Some(body)
            } else {
                None
            }
        },
        Err(ApiError::ServiceUnavailable(m)) => {
            &&& proxy is None
            &&& m@ == "Gateway proxy not configured. Set GATEWAY_URL environment variable."@
        },
        Err(ApiError::BadRequest(m)) => {
            &&& proxy is Some
            &&& !is_supported(method)
            &&& m@ == "Unsupported method: "@ + method
        },
        Err(ApiError::InternalServerError(_)) => false,
    }
}

/// The model of an optional proxy.
pub open spec fn proxy_view(proxy: Option<&GatewayProxy>) -> Option<ProxyView> {
    match proxy {
        Some(p) => Some(p@),
        None => None,
    }
}

/// Forwards a request to the default gateway.
///
/// Maps `/api/gateway/{path}` -> `{GATEWAY_URL}/{path}`
pub fn gateway_proxy(
    proxy: Option<&GatewayProxy>,
    path: &str,
    query: Option<&str>,
    method: &str,
    headers: &Vec<Header>,
    body: Vec<u8>,
) -> (r: Result<GatewayRequest, ApiError>)
    ensures
        forwards(
            r,
            proxy_view(proxy),
            None,
            gateway_path(path@),
            str_view(query),
            method@,
            views(headers@),
            body,
        ),
{
    match proxy {
        Some(p) => {
            let rest: String = target_path(path);
            forward_to_gateway(p, None, rest.as_str(), query, method, headers, body)
        },
        None => Err(not_configured()),
    }
}

/// Forwards a request to the gateway of an environment.
///
/// Maps `/api/gateway/env/{env}/{path}` -> `{GATEWAY_URL_for_env}/{path}`
pub fn gateway_proxy_env(
    proxy: Option<&GatewayProxy>,
    env_name: &str,
    rest: &str,
    query: Option<&str>,
    method: &str,
    headers: &Vec<Header>,
    body: Vec<u8>,
) -> (r: Result<GatewayRequest, ApiError>)
    ensures
        forwards(
            r,
            proxy_view(proxy),
            Some(env_name@),
            rest@,
            str_view(query),
            method@,
            views(headers@),
            body,
        ),
{
    match proxy {
        Some(p) => forward_to_gateway(p, Some(env_name), rest, query, method, headers, body),
        None => Err(not_configured()),
    }
}

/// A response to hand back.
#[derive(Debug)]
pub struct ProxyResponse {
    pub status: u16,
    pub headers: Vec<Header>,
    pub body: Vec<u8>,
}

/// Builds the response from what the gateway answered. A status that is no status becomes
/// 502, and headers that belong to one connection are left out.
pub fn response_from_gateway(status: u16, headers: &Vec<Header>, body: Vec<u8>) -> (r: ProxyResponse)
    ensures
        r.status == if 100 <= status <= 999 {
            status
        } else {
            502
        },
        views(r.headers@) == response_headers(views(headers@)),
        r.body == body,
{
    let status: u16 = match read_status(status) {
        Some(s) => s,
        None => 502,
    };
    let ghost all = views(headers@);
    let mut passed: Vec<Header> = Vec::new();
    let mut i: usize = 0;
    assert(views(passed@) =~= response_headers(all.take(0)));
    while i < headers.len()
        invariant
            i <= headers@.len(),
            all == views(headers@),
            views(passed@) == response_headers(all.take(i as int)),
        decreases headers@.len() - i,
    {
        proof {
            assert(all.take(i + 1).drop_last() =~= all.take(i as int));
            assert(all.take(i + 1).last() == headers@[i as int]@);
        }
        let ghost before = passed@;
        if !hop_by_hop(headers[i].name.as_str()) {
            let h = Header { name: headers[i].name.clone(), value: copy_bytes(&headers[i].value) };
            passed.push(h);
            assert(views(passed@) =~= views(before).push(all[i as int]));
        }
        i += 1;
    }
    assert(all.take(i as int) =~= all);
    ProxyResponse { status, headers: passed, body }
}

/// A copy of bytes.
fn copy_bytes(bytes: &Vec<u8>) -> (r: Vec<u8>)
    ensures
        r@ == bytes@,
{
    let mut r: Vec<u8> = Vec::new();
    let mut i: usize = 0;
    while i < bytes.len()
        invariant
            i <= bytes@.len(),
            r@ == bytes@.take(i as int),
        decreases bytes@.len() - i,
    {
        r.push(bytes[i]);
        i += 1;
    }
    assert(bytes@.take(i as int) =~= bytes@);
    r
}

/// A step of forwarding that can fail outside the library.
#[derive(Debug, Clone, Copy, PartialEq, Eq, Structural)]
pub enum ForwardStep {
    ReadRequestBody,
    Send,
    ReadResponseBody,
    BuildResponse,
}

/// The text that stands before the cause of a failed step.
pub open spec fn step_message(step: ForwardStep) -> Seq<char> {
    match step {
        ForwardStep::ReadRequestBody => "Failed to read request body: "@,
        ForwardStep::Send => "Gateway request failed: "@,
        ForwardStep::ReadResponseBody => "Failed to read Gateway response: "@,
        ForwardStep::BuildResponse => "Failed to build response: "@,
    }
}

/// The error for a step that failed: the gateway is unavailable where sending failed, and
/// anything else is an internal error.
pub fn step_failed(step: ForwardStep, cause: &str) -> (r: ApiError)
    ensures
        match r {
            ApiError::ServiceUnavailable(m) => step == ForwardStep::Send && m@ == step_message(step)
                + cause@,
            ApiError::InternalServerError(m) => step != ForwardStep::Send && m@ == step_message(
                step,
            ) + cause@,
            ApiError::BadRequest(_) => false,
        },
{
    let mut text: String = match step {
        ForwardStep::ReadRequestBody => "Failed to read request body: ".to_owned(),
        ForwardStep::Send => "Gateway request failed: ".to_owned(),
        ForwardStep::ReadResponseBody => "Failed to read Gateway response: ".to_owned(),
        ForwardStep::BuildResponse => "Failed to build response: ".to_owned(),
    };
    text.append(cause);
    if step == ForwardStep::Send {
        ApiError::ServiceUnavailable(text)
    } else {
        ApiError::InternalServerError(text)
    }
}

/// An environment without a gateway of its own is served by the default gateway.
pub proof fn law_unknown_env_falls_back(proxy: ProxyView, env: Seq<char>)
    requires
        !proxy.env_urls.contains_key(env),
    ensures
        proxy.url_for(Some(env)) == proxy.url_for(None),
        proxy.url_for(Some(env)) == proxy.base_url,
{
}

/// A path and a query pass the proxy unchanged, behind the address of the gateway.
pub proof fn law_path_and_query_preserved(
    proxy: ProxyView,
    env: Option<Seq<char>>,
    path: Seq<char>,
    query: Seq<char>,
)
    ensures
        target_url(proxy, env, path, Some(query)) == proxy.url_for(env) + "/"@ + path + "?"@ + query,
        target_url(proxy, env, path, None) == proxy.url_for(env) + "/"@ + path,
        gateway_path("/api/gateway/"@ + path) == path,
{
    let base = proxy.url_for(env) + "/"@ + path;
    assert(base + ("?"@ + query) =~= base + "?"@ + query);
    assert(base + Seq::<char>::empty() =~= base);
    let full = "/api/gateway/"@ + path;
    assert("/api/gateway/"@ =~= full.subrange(0, "/api/gateway/"@.len() as int));
    assert(full.skip("/api/gateway/"@.len() as int) =~= path);
}

/// No header that belongs to one connection passes the proxy, in either direction, and the
/// host does not pass to the gateway.
pub proof fn law_connection_headers_stop(headers: Seq<HeaderView>)
    ensures
        forall|i: int|
            0 <= i < request_headers(headers).len() ==> !is_hop_by_hop(
                (#[trigger] request_headers(headers)[i]).name,
            ) && lowered(request_headers(headers)[i].name) != "host"@,
        forall|i: int|
            0 <= i < response_headers(headers).len() ==> !is_hop_by_hop(
                (#[trigger] response_headers(headers)[i]).name,
            ),
    decreases headers.len(),
{
    if headers.len() > 0 {
        let init = headers.drop_last();
        law_connection_headers_stop(init);
        assert forall|i: int| 0 <= i < request_headers(headers).len() implies !is_hop_by_hop(
            (#[trigger] request_headers(headers)[i]).name,
        ) && lowered(request_headers(headers)[i].name) != "host"@ by {
            if i < request_headers(init).len() {
                assert(request_headers(headers)[i] == request_headers(init)[i]);
            }
        }
        assert forall|i: int| 0 <= i < response_headers(headers).len() implies !is_hop_by_hop(
            (#[trigger] response_headers(headers)[i]).name,
        ) by {
            if i < response_headers(init).len() {
                assert(response_headers(headers)[i] == response_headers(init)[i]);
            }
        }
    }
}

} // verus!
