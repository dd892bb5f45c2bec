//! What the functions on modules give back, whatever they are given.
use std::sync::Arc;
use vstd::prelude::*;
use vstd::string::*;
use wasmtime::component::Component;
use wasmtime::Engine;
use crate::text::chars::views;
use crate::text::number::decimal;
use crate::text::search::{lowered, occurs};
use crate::wasm::challenge::{
    bearer_param, oci_append_query, param_error, parse_bearer_param, token_request, token_url,
};
use crate::wasm::fetch::{
    check_web_status, fetch_failed, fetch_module, source_error, source_of, FetchStep, ModuleSource,
};
use crate::wasm::laws::{law_challenge_is_answered, law_further_param, shown};
use crate::wasm::oci::{
    credentials, is_insecure, layer_digest, layer_error, parse_reference, pick_layer, reference_of,
    OciReference,
};
use crate::wasm::pull::{
    describe_status, pick_token, status_text, token_choice, ActionView, Auth, AuthView,
    EventView, OciAction, OciEvent, OciGet, OciPull, OciRequest, PhaseView,
};
use crate::wasm::store::{
    binary_exports, component_exports, world_of_exports, CompiledModule, LoadError, WasmModuleStore, WorldType,
};
use crate::json::{items_view, member_view};
use crate::web::status_line;

verus! {

/// Whatever becomes of a request, the pull goes on with the same credentials and for the same
/// reference, and does what its model says.
pub proof fn law_pull_event(pull: &mut OciPull, event: OciEvent, r: OciAction)
    requires
        call_ensures(OciPull::on_event, (pull, event), r),
    ensures
        final(pull)@.get.credentials == old(pull)@.get.credentials,
        final(pull)@.get.reference == old(pull)@.get.reference,
        old(pull)@.at_blob ==> final(pull)@.at_blob,
        (final(pull)@, r@) == old(pull)@.step(event@),
{
}

/// The first request for authentication with a challenge that can be read and names a realm is
/// answered by a request for a token with the credentials of the pull, at the blob as at the
/// manifest.
pub proof fn law_pull_challenged(
    pull: &mut OciPull,
    event: OciEvent,
    r: OciAction,
    value: Seq<u8>,
    realm: Seq<char>,
)
    requires
        call_ensures(OciPull::on_event, (pull, event), r),
        old(pull)@.get.phase is First,
        event@ matches EventView::Answered { status, challenge, body } && status == 401 && challenge
            == Some(value),
        shown(value),
        bearer_param(Seq::new(value.len(), |i: int| value[i] as char), "realm"@) == Some(realm),
    ensures
        r@ matches ActionView::Send(request) && request.auth == match old(pull)@.get.credentials {
            Some(p) => AuthView::Basic { user: p.0, password: p.1 },
            None => AuthView::Anonymous,
        },
        final(pull)@.get.phase == (PhaseView::ChallengeToken { realm }),
        final(pull)@.at_blob == old(pull)@.at_blob,
{
    law_challenge_is_answered(old(pull)@, value, event@->body, realm);
}

/// A pull starts with the manifest, in the name of nobody, and keeps the credentials that it was
/// given.
pub proof fn law_pull_start(
    reference: OciReference,
    given: Option<(String, String)>,
    r: (OciPull, OciRequest),
)
    requires
        call_ensures(OciPull::new, (reference, given), r),
    ensures
        ({
            let x = reference@;
            &&& given matches Some(p) ==> r.0@.get.credentials == Some((p.0@, p.1@))
            &&& given is None ==> r.0@.get.credentials is None
            &&& r.0@.get.reference == x
            &&& r.0@.get.phase is First
            &&& !r.0@.at_blob
            &&& r.1@.url == x.proto + "://"@ + x.registry + "/v2/"@ + x.repo + "/manifests/"@
                + x.reference
            &&& r.1@.url == r.0@.get.url
            &&& r.1@.accept == seq![
                "application/vnd.oci.image.manifest.v1+json"@,
                "application/vnd.docker.distribution.manifest.v2+json"@,
            ]
            &&& r.1@.auth is Anonymous
        }),
{
}

/// An address of a registry is read as its model says; of one that is not, it is told whether
/// the scheme or the form was wrong.
pub proof fn law_reference_is_read(url: &str, rest: Seq<char>, r: Result<OciReference, String>)
    requires
        call_ensures(parse_reference, (url,), r),
    ensures
        r is Ok == reference_of(url@) is Some,
        r matches Ok(x) ==> reference_of(url@) == Some(x@),
        r is Err && (url@ == "oci://"@ + rest || url@ == "oci+http://"@ + rest) ==> r->Err_0@
            == "OCI reference must be registry/repo:tag"@,
        url@.len() == 0 || url@[0] != 'o' ==> r is Err && r->Err_0@ == "expected oci:// scheme"@,
{
    reveal_strlit("oci://");
    reveal_strlit("oci+http://");
    let a = "oci://"@ + rest;
    let b = "oci+http://"@ + rest;
    assert("oci://"@ =~= a.subrange(0, 6));
    assert("oci+http://"@ =~= b.subrange(0, 11));
    if "oci://"@.is_prefix_of(url@) {
        assert(url@[0] == "oci://"@[0]);
    }
    if "oci+http://"@.is_prefix_of(url@) {
        assert(url@[0] == "oci+http://"@[0]);
    }
}

/// Where a module comes from, and why it comes from nowhere.
pub proof fn law_module_is_located(url: &str, r: Result<ModuleSource, String>)
    requires
        call_ensures(fetch_module, (url,), r),
    ensures
        r matches Ok(s) ==> source_of(url@) == Some(s@),
        r matches Err(e) ==> source_of(url@) is None && e@ == source_error(url@),
{
}

/// What is told of a module that could not be fetched, and of an answer without success.
pub proof fn law_fetch_failures(
    step: FetchStep,
    where_from: &str,
    told: String,
    status: u16,
    url: &str,
    r: Result<(), String>,
)
    requires
        call_ensures(fetch_failed, (step, where_from), told),
        call_ensures(check_web_status, (status, url), r),
    ensures
        step is ReadFile ==> told@ == "failed to read WASM module from "@ + where_from@,
        step is Request ==> told@ == "failed to fetch WASM module from "@ + where_from@,
        step is ReadBody ==> told@ == "failed to read response body from "@ + where_from@,
        r is Ok <==> 200 <= status <= 299,
        r matches Err(e) ==> e@ == "HTTP "@ + status_text(status)
            + " fetching WASM module from "@ + url@,
{
}

/// A registry is reached without encryption where the setting is `true`, small or capital, or
/// `1`; and only a user and a password together are credentials.
pub proof fn law_registry_settings(
    setting: Option<String>,
    insecure: bool,
    user: Option<String>,
    password: Option<String>,
    r: Option<(String, String)>,
)
    requires
        call_ensures(is_insecure, (setting,), insecure),
        call_ensures(credentials, (user, password), r),
    ensures
        setting is None ==> !insecure,
        setting matches Some(s) ==> (insecure <==> lowered(s@) == "true"@ || s@ == "1"@),
        r is Some <==> user is Some && password is Some,
        r matches Some(p) ==> p.0 == user->0 && p.1 == password->0,
{
}

/// Which layer is pulled, which token is used, and how a status is told.
pub proof fn law_choices(
    listed: Result<Option<Vec<(Option<String>, Option<String>)>>, String>,
    layer: Result<String, Vec<String>>,
    token: Result<Option<String>, String>,
    access_token: Result<Option<String>, String>,
    chosen: Result<Option<String>, String>,
    status: u16,
    told: String,
)
    requires
        call_ensures(pick_layer, (listed,), layer),
        call_ensures(pick_token, (token, access_token), chosen),
        call_ensures(describe_status, (status,), told),
    ensures
        layer matches Ok(d) ==> layer_digest(items_view(listed)) == Some(d@),
        layer matches Err(e) ==> layer_digest(items_view(listed)) is None && views(e@)
            == layer_error(items_view(listed)),
        member_view(chosen) == token_choice(member_view(token), member_view(access_token)),
        status_line(status) matches Some(t) ==> told@ == t,
        status_line(status) is None ==> told@ == decimal(status as nat),
{
}

/// A parameter of a challenge is found or its absence told, the place for tokens is put together,
/// and a query grows by one parameter.
pub proof fn law_challenge_is_read(
    header: &str,
    param: &str,
    found: Result<String, String>,
    r: Result<(String, String), String>,
    url: &mut String,
    key: &str,
    val: &str,
)
    requires
        call_ensures(parse_bearer_param, (header, param), found),
        call_ensures(token_request, (header,), r),
        call_ensures(oci_append_query, (url, key, val), ()),
    ensures
        found matches Ok(v) ==> bearer_param(header@, param@) == Some(v@),
        found matches Err(e) ==> bearer_param(header@, param@) is None && e@ == param_error(
            header@,
            param@,
        ),
        r matches Ok(p) ==> bearer_param(header@, "realm"@) == Some(p.0@) && token_url(header@)
            == Some(p.1@),
        r matches Err(e) ==> bearer_param(header@, "realm"@) is None && e@ == param_error(
            header@,
            "realm"@,
        ),
        old(url)@.contains('?') ==> final(url)@ == old(url)@ + seq!['&'] + key@ + seq!['='] + val@,
        !old(url)@.contains('?') ==> final(url)@ == old(url)@ + seq!['?'] + key@ + seq!['='] + val@,
{
    if old(url)@.contains('?') {
        law_further_param(old(url)@, key@, val@);
    } else {
        assert(crate::wasm::challenge::with_param(old(url)@, key@, val@) =~= old(url)@ + seq!['?']
            + key@ + seq!['='] + val@);
    }
}

/// What a store does with what compiling gave: it keeps the module under its function, with the
/// place it came from and the world that its exports tell, or keeps nothing and tells the cause.
pub proof fn law_store_keeps(
    store: &mut WasmModuleStore,
    fn_id: &str,
    source_url: &str,
    compiled: Result<Component, wasmtime::Error>,
    r: Result<Arc<CompiledModule>, LoadError>,
)
    requires
        call_ensures(WasmModuleStore::keep, (store, fn_id, source_url, compiled), r),
    ensures
        r is Ok <==> compiled is Ok,
        compiled matches Ok(c) ==> {
            let m = r->Ok_0;
            &&& m.component == c
            &&& m.source_url@ == source_url@
            &&& (m.world_type is ObjectOriented <==> exists|i: int|
                0 <= i < component_exports(c).len() && occurs(
                    #[trigger] component_exports(c)[i],
                    "guest-object"@,
                ))
            &&& final(store)@ == old(store)@.insert(fn_id@, m)
        },
        compiled matches Err(cause) ==> final(store)@ == old(store)@ && (r->Err_0 matches LoadError::Compile {
            cause: told,
        } && told == cause),
{
}

/// The world of a module is told by its exports alone.
pub proof fn law_world_is_told(exports: &Vec<String>, r: WorldType)
    requires
        call_ensures(world_of_exports, (exports,), r),
    ensures
        r is ObjectOriented <==> exists|i: int|
            0 <= i < exports@.len() && occurs((#[trigger] exports@[i])@, "guest-object"@),
{
    let all = views(exports@);
    if exists|i: int| 0 <= i < exports@.len() && occurs((#[trigger] exports@[i])@, "guest-object"@) {
        let i = choose|i: int|
            0 <= i < exports@.len() && occurs((#[trigger] exports@[i])@, "guest-object"@);
        assert(occurs(all[i], "guest-object"@));
    }
    if r is ObjectOriented {
        let i = choose|i: int| 0 <= i < all.len() && occurs(#[trigger] all[i], "guest-object"@);
        assert(occurs(exports@[i]@, "guest-object"@));
    }
}

/// Looking a module up, putting one in and taking one out touch its function alone.
pub proof fn law_store_operations(
    store: &WasmModuleStore,
    fn_id: &str,
    found: Option<Arc<CompiledModule>>,
    put: &mut WasmModuleStore,
    module: Arc<CompiledModule>,
    taken: &mut WasmModuleStore,
    was: bool,
    other: Seq<char>,
)
    requires
        call_ensures(WasmModuleStore::get, (store, fn_id), found),
        call_ensures(WasmModuleStore::insert, (put, fn_id, module), ()),
        call_ensures(WasmModuleStore::remove, (taken, fn_id), was),
        other != fn_id@,
    ensures
        found is Some <==> store@.contains_key(fn_id@),
        found matches Some(m) ==> m == store@[fn_id@],
        final(put)@.contains_key(fn_id@) && final(put)@[fn_id@] == module,
        final(put)@.contains_key(other) == old(put)@.contains_key(other),
        old(put)@.contains_key(other) ==> final(put)@[other] == old(put)@[other],
        !final(taken)@.contains_key(fn_id@),
        was == old(taken)@.contains_key(fn_id@),
        final(taken)@.contains_key(other) == old(taken)@.contains_key(other),
        old(taken)@.contains_key(other) ==> final(taken)@[other] == old(taken)@[other],
{
}

/// A module that is loaded is kept under its function with the address it came from, and one that
/// is loaded from bytes alone with the address `bytes://`; a failed load changes nothing.
pub proof fn law_loading(
    store: &mut WasmModuleStore,
    bare: &mut WasmModuleStore,
    fn_id: &str,
    url: &str,
    bytes: &[u8],
    r: Result<Arc<CompiledModule>, LoadError>,
    s: Result<Arc<CompiledModule>, LoadError>,
)
    requires
        call_ensures(WasmModuleStore::load, (store, fn_id, url, bytes), r),
        call_ensures(WasmModuleStore::load_from_bytes, (bare, fn_id, bytes), s),
    ensures
        r matches Ok(m) ==> m.source_url@ == url@ && final(store)@ == old(store)@.insert(fn_id@, m)
            && component_exports(m.component) == binary_exports(bytes@),
        r is Err ==> final(store)@ == old(store)@,
        s matches Ok(m) ==> m.source_url@ == "bytes://"@ && final(bare)@ == old(bare)@.insert(
            fn_id@,
            m,
        ) && component_exports(m.component) == binary_exports(bytes@),
        s is Err ==> final(bare)@ == old(bare)@,
{
}

/// The addresses of a reference, a copy of it, and what getting one address does.
pub proof fn law_reference_functions(
    x: &OciReference,
    digest: &str,
    manifest: String,
    blob: String,
    token: String,
    copy: OciReference,
    get: &mut OciGet,
    event: OciEvent,
    r: OciAction,
    auth: Auth,
    asking: &OciGet,
    request: OciRequest,
)
    requires
        call_ensures(OciReference::manifest_url, (x,), manifest),
        call_ensures(OciReference::blob_url, (x, digest), blob),
        call_ensures(OciReference::anonymous_url, (x,), token),
        call_ensures(OciReference::copy, (x,), copy),
        call_ensures(OciGet::on_event, (get, event), r),
        call_ensures(OciGet::request, (asking, auth), request),
    ensures
        manifest@ == x@.proto + "://"@ + x@.registry + "/v2/"@ + x@.repo + "/manifests/"@
            + x@.reference,
        blob@ == x@.proto + "://"@ + x@.registry + "/v2/"@ + x@.repo + "/blobs/"@ + digest@,
        token@ == x@.proto + "://"@ + x@.registry + "/service/token?scope=repository:"@ + x@.repo
            + ":pull"@,
        copy@ == x@,
        final(get)@.url == old(get)@.url && final(get)@.accept == old(get)@.accept,
        final(get)@.credentials == old(get)@.credentials && final(get)@.reference == old(
            get,
        )@.reference,
        (final(get)@.phase, r@) == old(get)@.step(event@),
        request@.url == asking@.url && request@.accept == asking@.accept && request@.auth == auth@,
{
}

/// A new store is empty, and a store is as large as the number of functions it has a module for.
pub proof fn law_store_size(
    engine: Engine,
    fresh: WasmModuleStore,
    store: &WasmModuleStore,
    n: usize,
    empty: bool,
    fn_id: Seq<char>,
)
    requires
        call_ensures(WasmModuleStore::new, (engine,), fresh),
        call_ensures(WasmModuleStore::len, (store,), n),
        call_ensures(WasmModuleStore::is_empty, (store,), empty),
    ensures
        !fresh@.contains_key(fn_id),
        fresh.engine_of() == engine,
        n == store@.dom().len(),
        empty <==> n == 0,
{
    if n == 0 {
        assert(store@ =~= Map::<Seq<char>, Arc<CompiledModule>>::empty());
    }
    if empty {
        assert(store@.dom() =~= Set::<Seq<char>>::empty());
    }
}

} // verus!
