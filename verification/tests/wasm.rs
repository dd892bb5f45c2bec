use oprc::wasm::challenge::{oci_append_query, parse_bearer_param, token_request};
use oprc::wasm::fetch::{check_web_status, fetch_failed, fetch_module, FetchStep, ModuleSource};
use oprc::wasm::oci::{credentials, is_insecure, parse_reference, pick_layer, OciReference};
use oprc::wasm::pull::{pick_token, Auth, OciAction, OciEvent, OciPull, OciRequest};
use oprc::wasm::store::{detect_world_type, world_of_exports, WasmModuleStore, WorldType};
use wasmtime::component::Component;
use wasmtime::Engine;

fn s(t: &str) -> String {
    t.to_string()
}

fn test_engine() -> Engine {
    let mut config = wasmtime::Config::new();
    config.wasm_component_model(true);
    Engine::new(&config).unwrap()
}

// The binary form of `(component)`.
fn minimal_component_bytes() -> Vec<u8> {
    vec![0x00, 0x61, 0x73, 0x6d, 0x0d, 0x00, 0x01, 0x00]
}

// A component that exports an empty instance under a name.
fn exporting_component_bytes(name: &str) -> Vec<u8> {
    let mut bytes = minimal_component_bytes();
    bytes.extend([0x05, 0x03, 0x01, 0x01, 0x00]);
    bytes.extend([0x0b, name.len() as u8 + 6, 0x01, 0x00, name.len() as u8]);
    bytes.extend(name.as_bytes());
    bytes.extend([0x05, 0x00, 0x00]);
    bytes
}

#[test]
fn load_from_bytes_and_get() {
    let mut store = WasmModuleStore::new(test_engine());
    let bytes = minimal_component_bytes();
    let module = store.load_from_bytes("test-fn", &bytes).ok().unwrap();
    assert_eq!(module.source_url, "bytes://");

    let cached = store.get("test-fn");
    assert!(cached.is_some());
}

#[test]
fn get_missing_returns_none() {
    let store = WasmModuleStore::new(test_engine());
    assert!(store.get("nonexistent").is_none());
}

#[test]
fn remove_drops_module() {
    let mut store = WasmModuleStore::new(test_engine());
    let bytes = minimal_component_bytes();
    store.load_from_bytes("fn1", &bytes).ok().unwrap();
    assert_eq!(store.len(), 1);

    assert!(store.remove("fn1"));
    assert_eq!(store.len(), 0);
    assert!(store.get("fn1").is_none());
}

#[test]
fn remove_nonexistent_returns_false() {
    let mut store = WasmModuleStore::new(test_engine());
    assert!(!store.remove("nope"));
}

#[test]
fn load_replaces_existing() {
    let mut store = WasmModuleStore::new(test_engine());
    let bytes = minimal_component_bytes();
    store.load_from_bytes("fn1", &bytes).ok().unwrap();
    store.load_from_bytes("fn1", &bytes).ok().unwrap();
    assert_eq!(store.len(), 1);
}

#[test]
fn minimal_component_is_legacy() {
    let mut store = WasmModuleStore::new(test_engine());
    let bytes = minimal_component_bytes();
    let module = store.load_from_bytes("empty", &bytes).ok().unwrap();
    assert_eq!(module.world_type, WorldType::Legacy);
}

#[test]
fn detect_world_type_empty_component() {
    let engine = test_engine();
    let bytes = minimal_component_bytes();
    let component = Component::from_binary(&engine, &bytes).unwrap();
    assert_eq!(detect_world_type(&engine, &component), WorldType::Legacy);
}

#[test]
fn object_world_is_detected() {
    let mut store = WasmModuleStore::new(test_engine());
    let bytes = exporting_component_bytes("guest-object");
    let module = store.load("obj", "file:///obj.wasm", &bytes).ok().unwrap();
    assert_eq!(module.world_type, WorldType::ObjectOriented);
    assert_eq!(module.source_url, "file:///obj.wasm");
    let bytes = exporting_component_bytes("guest-function");
    let module = store.load("fun", "file:///fun.wasm", &bytes).ok().unwrap();
    assert_eq!(module.world_type, WorldType::Legacy);
    assert_eq!(world_of_exports(&vec![s("a"), s("oaas:odgm/guest-object@0.1.0")]), WorldType::ObjectOriented);
    assert_eq!(world_of_exports(&vec![s("guest-function")]), WorldType::Legacy);
}

#[test]
fn broken_module_changes_nothing() {
    let mut store = WasmModuleStore::new(test_engine());
    assert!(store.is_empty());
    assert!(store.load_from_bytes("fn1", b"no component").is_err());
    assert!(store.is_empty());
    let module = store.load_from_bytes("fn1", &minimal_component_bytes()).ok().unwrap();
    store.insert("fn2", module);
    assert!(store.get("fn2").is_some());
    assert_eq!(store.len(), 2);
    let again = Component::from_binary(store.engine(), &minimal_component_bytes());
    assert!(again.is_ok());
}

#[test]
fn compiled_modules_are_kept() {
    let engine = test_engine();
    let bytes = exporting_component_bytes("guest-object");
    let mut store = WasmModuleStore::new(engine.clone());
    let compiled = wasmtime::component::Component::from_binary(&engine, &bytes);
    let kept = store.keep("fn", "oci://host/repo:tag", compiled).ok().unwrap();
    assert_eq!(kept.source_url, "oci://host/repo:tag");
    assert_eq!(kept.world_type, WorldType::ObjectOriented);
    assert_eq!(store.get("fn").unwrap().source_url, "oci://host/repo:tag");
    let broken = wasmtime::component::Component::from_binary(&engine, &[1, 2, 3]);
    assert!(store.keep("other", "file:///x", broken).is_err());
    assert_eq!(store.len(), 1);
}

#[test]
fn fetch_module_unsupported_scheme() {
    let result = fetch_module("ftp://example.com/fn.wasm");
    assert!(result.is_err());
    assert!(result.unwrap_err().contains("unsupported"));
}

#[test]
fn fetch_module_oci_scheme_routes_to_oci() {
    match fetch_module("oci://registry.example.com/repo:tag") {
        Ok(ModuleSource::Registry { reference }) => {
            assert_eq!(reference.proto, "https");
            assert_eq!(reference.registry, "registry.example.com");
            assert_eq!(reference.repo, "repo");
            assert_eq!(reference.reference, "tag");
        },
        other => panic!("oci:// should be routed, got: {:?}", other),
    }
}

#[test]
fn fetch_module_oci_http_scheme_routes_to_oci() {
    match fetch_module("oci+http://registry.example.com/repo:tag") {
        Ok(ModuleSource::Registry { reference }) => assert_eq!(reference.proto, "http"),
        other => panic!("oci+http:// should be routed, got: {:?}", other),
    }
}

#[test]
fn files_and_web_are_routed() {
    assert!(matches!(
        fetch_module("file:///a/b.wasm"),
        Ok(ModuleSource::File { path }) if path == "/a/b.wasm"
    ));
    assert!(matches!(
        fetch_module("https://x/y.wasm"),
        Ok(ModuleSource::Web { url }) if url == "https://x/y.wasm"
    ));
    assert!(matches!(fetch_module("http://x"), Ok(ModuleSource::Web { .. })));
    assert_eq!(fetch_module("oci://x").unwrap_err(), "OCI reference must be registry/repo:tag");
    assert_eq!(
        fetch_module("plain.wasm").unwrap_err(),
        "unsupported WASM module URL scheme: plain.wasm"
    );
    assert_eq!(fetch_failed(FetchStep::ReadFile, "p"), "failed to read WASM module from p");
    assert_eq!(fetch_failed(FetchStep::Request, "u"), "failed to fetch WASM module from u");
    assert_eq!(fetch_failed(FetchStep::ReadBody, "u"), "failed to read response body from u");
    assert!(check_web_status(200, "u").is_ok());
    assert_eq!(
        check_web_status(404, "u").unwrap_err(),
        "HTTP 404 Not Found fetching WASM module from u"
    );
}

#[test]
fn parse_bearer_param_realm() {
    let header = r#"Bearer realm="https://harbor.example.com/service/token",service="harbor",scope="repository:oaas/app:pull""#;
    assert_eq!(
        parse_bearer_param(header, "realm").unwrap(),
        "https://harbor.example.com/service/token"
    );
    assert_eq!(parse_bearer_param(header, "service").unwrap(), "harbor");
    assert_eq!(
        parse_bearer_param(header, "scope").unwrap(),
        "repository:oaas/app:pull"
    );
}

#[test]
fn parse_bearer_param_missing_returns_err() {
    let result =
        parse_bearer_param("Bearer realm=\"https://host\"", "scope");
    assert!(result.is_err());
}

#[test]
fn broken_challenges_are_named() {
    assert_eq!(
        parse_bearer_param("Bearer", "realm").unwrap_err(),
        "Www-Authenticate missing 'realm'"
    );
    assert_eq!(
        parse_bearer_param("Bearer realm=\"https://host", "realm").unwrap_err(),
        "unterminated quoted value in Www-Authenticate"
    );
    assert_eq!(parse_bearer_param("realm=\"\"", "realm").unwrap(), "");
}

#[test]
fn query_parameters_are_appended() {
    let mut url = s("https://host/auth");
    oci_append_query(&mut url, "service", "harbor");
    assert_eq!(url, "https://host/auth?service=harbor");
    oci_append_query(&mut url, "scope", "x:y");
    assert_eq!(url, "https://host/auth?service=harbor&scope=x:y");
    let (realm, url) =
        token_request("Bearer realm=\"https://h/t?a=b\",service=\"s\"").unwrap();
    assert_eq!(realm, "https://h/t?a=b");
    assert_eq!(url, "https://h/t?a=b&service=s");
    assert!(token_request("Basic").is_err());
}

#[test]
fn references_are_parsed() {
    let parts = |url: &str| {
        let r = parse_reference(url).unwrap();
        (r.proto, r.registry, r.repo, r.reference)
    };
    assert_eq!(
        parts("oci://host:5000/team/app:v1"),
        (s("https"), s("host:5000"), s("team/app"), s("v1"))
    );
    assert_eq!(
        parts("oci://host/app@sha256:abc"),
        (s("https"), s("host"), s("app"), s("sha256:abc"))
    );
    assert_eq!(parts("oci+http://host/app"), (s("http"), s("host"), s("app"), s("latest")));
    assert_eq!(parts("oci://host/a:b:c"), (s("https"), s("host"), s("a:b"), s("c")));
    assert_eq!(parse_reference("http://host/app").unwrap_err(), "expected oci:// scheme");
    assert_eq!(
        parse_reference("oci://host").unwrap_err(),
        "OCI reference must be registry/repo:tag"
    );
    let r = parse_reference("oci://host/app:v1").unwrap();
    assert_eq!(r.manifest_url(), "https://host/v2/app/manifests/v1");
    assert_eq!(r.blob_url("sha256:x"), "https://host/v2/app/blobs/sha256:x");
    assert_eq!(
        r.anonymous_url(),
        "https://host/service/token?scope=repository:app:pull"
    );
}

#[test]
fn registry_settings() {
    assert!(is_insecure(Some(s("True"))));
    assert!(is_insecure(Some(s("1"))));
    assert!(!is_insecure(Some(s("yes"))));
    assert!(!is_insecure(None));
    assert_eq!(credentials(Some(s("u")), Some(s("p"))), Some((s("u"), s("p"))));
    assert_eq!(credentials(Some(s("u")), None), None);
    assert_eq!(credentials(None, Some(s("p"))), None);
}

#[test]
fn layers_are_picked() {
    let layer = |t: &str, d: &str| (Some(s(t)), Some(s(d)));
    let wasm = "application/wasm";
    let pick = |list: Vec<(Option<String>, Option<String>)>| pick_layer(Ok(Some(list)));
    assert_eq!(pick(vec![layer("x", "1"), layer(wasm, "2"), layer(wasm, "3")]).unwrap(), "2");
    assert_eq!(pick(vec![layer("x", "1"), layer("y", "2")]).unwrap(), "1");
    assert_eq!(pick(vec![(None, Some(s("1")))]).unwrap(), "1");
    assert_eq!(pick(vec![]).unwrap_err(), ["OCI manifest has no layers"]);
    assert_eq!(pick(vec![(Some(s(wasm)), None)]).unwrap_err(), ["OCI layer missing 'digest'"]);
    assert_eq!(pick_layer(Ok(None)).unwrap_err(), ["OCI manifest missing 'layers' array"]);
    assert_eq!(
        pick_layer(Err(s("cause"))).unwrap_err(),
        ["OCI manifest is not valid JSON", "cause"]
    );
}

#[test]
fn tokens_are_picked() {
    assert_eq!(pick_token(Ok(Some(s("a"))), Ok(Some(s("b")))), Ok(Some(s("a"))));
    assert_eq!(pick_token(Ok(None), Ok(Some(s("b")))), Ok(Some(s("b"))));
    assert_eq!(pick_token(Ok(None), Ok(None)), Ok(None));
    assert_eq!(pick_token(Err(s("x")), Err(s("y"))), Err(s("x")));
}

fn reference() -> OciReference {
    parse_reference("oci://host/app:v1").unwrap()
}

fn answer(status: u16, challenge: Option<&str>, body: &str) -> OciEvent {
    OciEvent::Answered {
        status,
        challenge: challenge.map(|c| c.as_bytes().to_vec()),
        body: Ok(body.as_bytes().to_vec()),
    }
}

fn sent(action: OciAction) -> OciRequest {
    match action {
        OciAction::Send(r) => r,
        other => panic!("{:?}", other),
    }
}

fn failed(action: OciAction) -> Vec<String> {
    match action {
        OciAction::Fail(e) => e,
        other => panic!("{:?}", other),
    }
}

const MANIFEST: &str = r#"{"layers":[{"mediaType":"text/plain","digest":"sha256:1"},
    {"mediaType":"application/wasm","digest":"sha256:2","size":7}]}"#;

#[test]
fn open_registry_is_pulled() {
    let (mut pull, first) = OciPull::new(reference(), None);
    assert_eq!(first.url, "https://host/v2/app/manifests/v1");
    assert_eq!(
        first.accept,
        [
            "application/vnd.oci.image.manifest.v1+json",
            "application/vnd.docker.distribution.manifest.v2+json"
        ]
    );
    assert!(matches!(first.auth, Auth::Anonymous));
    let next = sent(pull.on_event(answer(200, None, MANIFEST)));
    assert_eq!(next.url, "https://host/v2/app/blobs/sha256:2");
    assert_eq!(next.accept.len(), 0);
    match pull.on_event(answer(200, None, "wasm bytes")) {
        OciAction::Done(bytes) => assert_eq!(bytes, b"wasm bytes"),
        other => panic!("{:?}", other),
    }
}

#[test]
fn challenge_leads_to_a_token() {
    let credentials = Some((s("me"), s("secret")));
    let (mut pull, _) = OciPull::new(reference(), credentials);
    let challenge = "Bearer realm=\"https://auth/t\",service=\"s\",scope=\"r\"";
    let token = sent(pull.on_event(answer(401, Some(challenge), "")));
    assert_eq!(token.url, "https://auth/t?service=s&scope=r");
    assert!(matches!(
        token.auth,
        Auth::Basic { user, password } if user == "me" && password == "secret"
    ));
    let again = sent(pull.on_event(answer(200, None, r#"{"access_token":"T"}"#)));
    assert_eq!(again.url, "https://host/v2/app/manifests/v1");
    assert_eq!(again.accept.len(), 2);
    assert!(matches!(again.auth, Auth::Bearer { token } if token == "T"));
    assert_eq!(
        failed(pull.on_event(answer(401, Some(challenge), ""))),
        [
            "failed to fetch OCI manifest",
            "OCI 401 Unauthorized https://host/v2/app/manifests/v1"
        ]
    );
}

#[test]
fn password_is_used_without_a_challenge() {
    let (mut pull, _) = OciPull::new(reference(), Some((s("me"), s("secret"))));
    let again = sent(pull.on_event(answer(401, None, "")));
    assert_eq!(again.url, "https://host/v2/app/manifests/v1");
    assert!(matches!(again.auth, Auth::Basic { .. }));
    assert_eq!(
        failed(pull.on_event(OciEvent::Failed { cause: s("broken pipe") })),
        [
            "failed to fetch OCI manifest",
            "GET https://host/v2/app/manifests/v1 (basic auth)",
            "broken pipe"
        ]
    );
}

#[test]
fn anonymous_token_is_tried() {
    let (mut pull, _) = OciPull::new(reference(), None);
    let token = sent(pull.on_event(answer(401, None, "")));
    assert_eq!(token.url, "https://host/service/token?scope=repository:app:pull");
    let again = sent(pull.on_event(answer(200, None, r#"{"token":"T","access_token":"U"}"#)));
    assert!(matches!(again.auth, Auth::Bearer { token } if token == "T"));
    let next = sent(pull.on_event(answer(200, None, MANIFEST)));
    assert_eq!(next.url, "https://host/v2/app/blobs/sha256:2");
    assert!(matches!(next.auth, Auth::Anonymous));
}

#[test]
fn pull_failures_are_named() {
    let start = || OciPull::new(reference(), None).0;
    let manifest = "failed to fetch OCI manifest";
    let url = "https://host/v2/app/manifests/v1";
    assert_eq!(
        failed(start().on_event(OciEvent::Failed { cause: s("dns") })),
        [s(manifest), format!("GET {url}"), s("dns")]
    );
    assert_eq!(
        failed(start().on_event(answer(404, None, ""))),
        [s(manifest), format!("OCI 404 Not Found {url}")]
    );
    let unreadable =
        OciEvent::Answered { status: 200, challenge: None, body: Err(s("cut off")) };
    assert_eq!(failed(start().on_event(unreadable)), [manifest, "cut off"]);
    assert_eq!(
        failed(start().on_event(answer(200, None, "no json"))),
        ["OCI manifest is not valid JSON", "expected ident at line 1 column 2"]
    );
    assert_eq!(
        failed(start().on_event(answer(200, None, "{}"))),
        ["OCI manifest missing 'layers' array"]
    );
    assert_eq!(
        failed(start().on_event(answer(401, Some("Basic"), ""))),
        [manifest, "Www-Authenticate missing 'realm'", "Www-Authenticate missing 'realm'"]
    );
    // A challenge that is no text counts as none.
    let event = OciEvent::Answered { status: 401, challenge: Some(vec![0xFF]), body: Ok(vec![]) };
    let token = sent(start().on_event(event));
    assert_eq!(token.url, "https://host/service/token?scope=repository:app:pull");
}

#[test]
fn token_failures_are_named() {
    let challenged = || {
        let mut pull = OciPull::new(reference(), None).0;
        sent(pull.on_event(answer(401, Some("Bearer realm=\"https://auth/t\""), "")));
        pull
    };
    let manifest = "failed to fetch OCI manifest";
    assert_eq!(
        failed(challenged().on_event(answer(503, None, ""))),
        [manifest, "OCI token endpoint 503 Service Unavailable https://auth/t"]
    );
    assert_eq!(
        failed(challenged().on_event(answer(200, None, "x"))),
        [manifest, "OCI token response not JSON", "expected value at line 1 column 1"]
    );
    assert_eq!(
        failed(challenged().on_event(answer(200, None, "{}"))),
        [manifest, "OCI token response missing 'token' / 'access_token' field"]
    );
    assert_eq!(
        failed(challenged().on_event(OciEvent::Failed { cause: s("c") })),
        [manifest, "OCI token endpoint request failed", "c"]
    );
    let anonymous = || {
        let mut pull = OciPull::new(reference(), None).0;
        sent(pull.on_event(answer(401, None, "")));
        pull
    };
    assert_eq!(
        failed(anonymous().on_event(answer(403, None, ""))),
        [manifest, "OCI registry requires authentication and no credentials provided"]
    );
    assert_eq!(
        failed(anonymous().on_event(answer(200, None, "x"))),
        [manifest, "OCI anonymous token response not JSON", "expected value at line 1 column 1"]
    );
    assert_eq!(
        failed(anonymous().on_event(answer(200, None, r#"{"token":5}"#))),
        [manifest, "OCI anonymous token missing 'token' field"]
    );
    assert_eq!(failed(anonymous().on_event(OciEvent::Failed { cause: s("c") })), [manifest, "c"]);
    let mut pull = anonymous();
    sent(pull.on_event(answer(200, None, r#"{"token":"T"}"#)));
    assert_eq!(
        failed(pull.on_event(OciEvent::Failed { cause: s("c") })),
        [manifest, "GET https://host/v2/app/manifests/v1 (bearer)", "c"]
    );
    let mut pull = OciPull::new(reference(), None).0;
    sent(pull.on_event(answer(200, None, MANIFEST)));
    assert_eq!(
        failed(pull.on_event(answer(500, None, ""))),
        [
            "failed to fetch OCI blob",
            "OCI 500 Internal Server Error https://host/v2/app/blobs/sha256:2"
        ]
    );
}
