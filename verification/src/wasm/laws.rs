//! What a pull from a registry asks for, sends and answers.
use std::sync::Arc;
use vstd::prelude::*;
use vstd::string::*;
use crate::json::{json_items, json_member};
use crate::text::laws::{law_cut, law_last_mark, law_occurs};
use crate::text::number::decimal;
use crate::text::search::{first_occurrence, lemma_first_at, lemma_place_of, occurs};
use crate::wasm::challenge::{
    after_mark, bearer_param, law_bearer_param_round_trip, param_error, param_mark, token_url,
    with_param,
};
use crate::wasm::fetch::{source_error, source_of, SourceView};
use crate::wasm::oci::{
    anonymous_url, blob_url, law_wasm_layer_preferred, manifest_url, reference_of,
    repo_and_reference, ReferenceView,
};
use crate::wasm::pull::{
    manifest_get, status_text, token_choice, ActionView, AuthView, BodyView, EventView, PhaseView,
    PullView, RequestView,
};
use crate::wasm::store::{
    binary_exports, component_exports, world_of, CompiledModule, LoadError, WasmModuleStore,
};
use crate::web::status_line;

verus! {

/// Whoever starts a pull goes on with it: its credentials and its reference never change,
/// whatever becomes of a request, and a pull that has come to the blob stays there.
pub proof fn law_pull_keeps_who_asks(pull: PullView, event: EventView)
    ensures
        pull.step(event).0.get.credentials == pull.get.credentials,
        pull.step(event).0.get.reference == pull.get.reference,
        pull.at_blob ==> pull.step(event).0.at_blob,
        pull.at_blob ==> pull.step(event).0.get.url == pull.get.url,
        pull.at_blob ==> pull.step(event).0.get.accept == pull.get.accept,
{
}

/// A pull starts with the manifest of its reference, with the credentials that it was given.
pub proof fn law_pull_starts_at_the_manifest(
    x: ReferenceView,
    credentials: Option<(Seq<char>, Seq<char>)>,
)
    ensures
        ({
            let get = manifest_get(x, credentials);
            &&& get.credentials == credentials
            &&& get.reference == x
            &&& get.phase is First
            &&& get.url == x.proto + "://"@ + x.registry + "/v2/"@ + x.repo + "/manifests/"@
                + x.reference
            &&& get.accept == seq![
                "application/vnd.oci.image.manifest.v1+json"@,
                "application/vnd.docker.distribution.manifest.v2+json"@,
            ]
        }),
{
}

/// The addresses under which a registry serves a repository: its manifests, its blobs and its
/// tokens for nobody.
pub proof fn law_registry_addresses(x: ReferenceView, digest: Seq<char>)
    ensures
        manifest_url(x) == x.proto + "://"@ + x.registry + "/v2/"@ + x.repo + "/manifests/"@
            + x.reference,
        blob_url(x, digest) == x.proto + "://"@ + x.registry + "/v2/"@ + x.repo + "/blobs/"@
            + digest,
        anonymous_url(x) == x.proto + "://"@ + x.registry + "/service/token?scope=repository:"@
            + x.repo + ":pull"@,
{
}

/// The token of an answer is the text under the first key, else that under the second; an answer
/// that is no document has none, and the cause is told.
pub proof fn law_token_choice(t: Seq<char>, cause: Seq<char>)
    ensures
        forall|second: Result<Option<Seq<char>>, Seq<char>>|
            {
                &&& #[trigger] token_choice(Ok(Some(t)), second) == Ok::<_, Seq<char>>(Some(t))
                &&& token_choice(Err(cause), second) == Err::<Option<Seq<char>>, _>(cause)
            },
        token_choice(Ok(None), Ok(Some(t))) == Ok::<_, Seq<char>>(Some(t)),
        token_choice(Ok(None), Ok(None)) == Ok::<Option<Seq<char>>, Seq<char>>(None),
        token_choice(Ok(None), Err(cause)) == Ok::<Option<Seq<char>>, Seq<char>>(None),
{
}

/// The text that introduces a failure of a pull.
pub open spec fn stage_text(at_blob: bool) -> Seq<char> {
    if at_blob {
        "failed to fetch OCI blob"@
    } else {
        "failed to fetch OCI manifest"@
    }
}

/// Whether the bytes of a header value are characters that can be shown.
pub open spec fn shown(value: Seq<u8>) -> bool {
    forall|i: int| 0 <= i < value.len() ==> (32 <= #[trigger] value[i] < 127 || value[i] == 9)
}

/// The first time that a registry asks for authentication and says where tokens are given, a
/// token is asked for there, with the credentials of the pull: at the blob as at the manifest.
pub proof fn law_challenge_is_answered(
    pull: PullView,
    value: Seq<u8>,
    body: BodyView,
    realm: Seq<char>,
)
    requires
        pull.get.phase is First,
        shown(value),
        bearer_param(Seq::new(value.len(), |i: int| value[i] as char), "realm"@) == Some(realm),
    ensures
        ({
            let header = Seq::new(value.len(), |i: int| value[i] as char);
            let (next, action) = pull.step(
                EventView::Answered { status: 401, challenge: Some(value), body },
            );
            &&& token_url(header) is Some
            &&& action == ActionView::Send(
                RequestView {
                    url: token_url(header)->0,
                    accept: seq![],
                    auth: match pull.get.credentials {
                        Some(p) => AuthView::Basic { user: p.0, password: p.1 },
                        None => AuthView::Anonymous,
                    },
                },
            )
            &&& next.get.phase == (PhaseView::ChallengeToken { realm })
            &&& next.at_blob == pull.at_blob
            &&& next.get.url == pull.get.url
            &&& next.get.accept == pull.get.accept
        }),
{
}

/// A challenge that names no place for tokens ends the pull.
pub proof fn law_challenge_without_realm(pull: PullView, value: Seq<u8>, body: BodyView)
    requires
        pull.get.phase is First,
        shown(value),
        bearer_param(Seq::new(value.len(), |i: int| value[i] as char), "realm"@) is None,
    ensures
        ({
            let header = Seq::new(value.len(), |i: int| value[i] as char);
            let (next, action) = pull.step(
                EventView::Answered { status: 401, challenge: Some(value), body },
            );
            action == ActionView::Fail(
                seq![
                    stage_text(pull.at_blob),
                    "Www-Authenticate missing 'realm'"@,
                    param_error(header, "realm"@),
                ],
            )
        }),
{
    let header = Seq::new(value.len(), |i: int| value[i] as char);
    let (next, action) = pull.step(
        EventView::Answered { status: 401, challenge: Some(value), body },
    );
    assert(action->Fail_0 =~= seq![
        stage_text(pull.at_blob),
        "Www-Authenticate missing 'realm'"@,
        param_error(header, "realm"@),
    ]);
}

/// Where a registry asks for authentication without a challenge that can be read, the same
/// address is asked for again with the credentials of the pull, and without any a token is asked
/// for at the usual place, in the name of nobody.
pub proof fn law_silent_challenge_is_answered(
    pull: PullView,
    challenge: Option<Seq<u8>>,
    body: BodyView,
)
    requires
        pull.get.phase is First,
        challenge matches Some(v) ==> !shown(v),
    ensures
        ({
            let x = pull.get.reference;
            let (next, action) = pull.step(EventView::Answered { status: 401, challenge, body });
            &&& pull.get.credentials matches Some(p) ==> next.get.phase is Basic && action
                == ActionView::Send(
                RequestView {
                    url: pull.get.url,
                    accept: pull.get.accept,
                    auth: AuthView::Basic { user: p.0, password: p.1 },
                },
            )
            &&& pull.get.credentials is None ==> next.get.phase is AnonymousToken && action
                == ActionView::Send(
                RequestView {
                    url: x.proto + "://"@ + x.registry + "/service/token?scope=repository:"@
                        + x.repo + ":pull"@,
                    accept: seq![],
                    auth: AuthView::Anonymous,
                },
            )
            &&& next.at_blob == pull.at_blob
            &&& next.get.url == pull.get.url
            &&& next.get.accept == pull.get.accept
        }),
{
    match challenge {
        Some(v) => {
            let i = choose|i: int|
                0 <= i < v.len() && !(32 <= #[trigger] v[i] < 127 || v[i] == 9);
            assert(!crate::web::is_visible(v[i]));
        },
        None => {},
    }
}

/// A token that was given is used: the address of the pull is asked for again with it. It stands
/// under `token`, or else under `access_token`.
pub proof fn law_token_is_used(
    pull: PullView,
    status: u16,
    challenge: Option<Seq<u8>>,
    bytes: Seq<u8>,
    token: Seq<char>,
)
    requires
        pull.get.phase is ChallengeToken || pull.get.phase is AnonymousToken,
        200 <= status < 300,
        json_member(bytes, "token"@) == Ok::<_, Seq<char>>(Some(token)) || (json_member(
            bytes,
            "token"@,
        ) == Ok::<Option<Seq<char>>, Seq<char>>(None) && json_member(bytes, "access_token"@)
            == Ok::<_, Seq<char>>(Some(token))),
    ensures
        ({
            let (next, action) = pull.step(
                EventView::Answered { status, challenge, body: BodyView::Bytes(bytes) },
            );
            &&& action == ActionView::Send(
                RequestView {
                    url: pull.get.url,
                    accept: pull.get.accept,
                    auth: AuthView::Bearer { token },
                },
            )
            &&& next.get.phase is Bearer
            &&& next.at_blob == pull.at_blob
            &&& next.get.url == pull.get.url
            &&& next.get.accept == pull.get.accept
        }),
{
}

/// An answer without a token ends the pull, and tells whether it was no JSON document or held no
/// token, and whether the token was asked for in the name of nobody.
pub proof fn law_missing_token_is_told(
    pull: PullView,
    status: u16,
    challenge: Option<Seq<u8>>,
    bytes: Seq<u8>,
    cause: Seq<char>,
)
    requires
        pull.get.phase is ChallengeToken || pull.get.phase is AnonymousToken,
        200 <= status < 300,
    ensures
        ({
            let action = pull.step(
                EventView::Answered { status, challenge, body: BodyView::Bytes(bytes) },
            ).1;
            let nobody = pull.get.phase is AnonymousToken;
            &&& json_member(bytes, "token"@) == Err::<Option<Seq<char>>, _>(cause) ==> action
                == ActionView::Fail(
                seq![
                    stage_text(pull.at_blob),
                    if nobody {
                        "OCI anonymous token response not JSON"@
                    } else {
                        "OCI token response not JSON"@
                    },
                    cause,
                ],
            )
            &&& json_member(bytes, "token"@) == Ok::<Option<Seq<char>>, Seq<char>>(None)
                && !(json_member(bytes, "access_token"@) matches Ok(Some(_))) ==> action
                == ActionView::Fail(
                seq![
                    stage_text(pull.at_blob),
                    if nobody {
                        "OCI anonymous token missing 'token' field"@
                    } else {
                        "OCI token response missing 'token' / 'access_token' field"@
                    },
                ],
            )
        }),
{
    let action = pull.step(
        EventView::Answered { status, challenge, body: BodyView::Bytes(bytes) },
    ).1;
    let nobody = pull.get.phase is AnonymousToken;
    if json_member(bytes, "token"@) == Err::<Option<Seq<char>>, _>(cause) {
        assert(action->Fail_0 =~= seq![
            stage_text(pull.at_blob),
            if nobody {
                "OCI anonymous token response not JSON"@
            } else {
                "OCI token response not JSON"@
            },
            cause,
        ]);
    }
    if json_member(bytes, "token"@) == Ok::<Option<Seq<char>>, Seq<char>>(None) && !(json_member(
        bytes,
        "access_token"@,
    ) matches Ok(Some(_))) {
        assert(action->Fail_0 =~= seq![
            stage_text(pull.at_blob),
            if nobody {
                "OCI anonymous token missing 'token' field"@
            } else {
                "OCI token response missing 'token' / 'access_token' field"@
            },
        ]);
    }
}

/// The blob that was asked for is what a pull gives back, unchanged.
pub proof fn law_blob_is_the_result(
    pull: PullView,
    status: u16,
    challenge: Option<Seq<u8>>,
    bytes: Seq<u8>,
)
    requires
        pull.at_blob,
        pull.get.phase is First || pull.get.phase is Basic || pull.get.phase is Bearer,
        200 <= status < 300,
    ensures
        pull.step(EventView::Answered { status, challenge, body: BodyView::Bytes(bytes) }).1
            == ActionView::Done(bytes),
{
}

/// When the manifest has come, the blob of its first WASM layer is asked for, or of its first
/// layer where none is a WASM layer, without any proof of who asks.
pub proof fn law_manifest_leads_to_the_blob(
    pull: PullView,
    status: u16,
    challenge: Option<Seq<u8>>,
    bytes: Seq<u8>,
    layers: Seq<(Option<Seq<char>>, Option<Seq<char>>)>,
    k: int,
    digest: Seq<char>,
)
    requires
        !pull.at_blob,
        pull.get.phase is First || pull.get.phase is Basic || pull.get.phase is Bearer,
        200 <= status < 300,
        json_items(bytes, "layers"@, "mediaType"@, "digest"@) == Ok::<_, Seq<char>>(Some(layers)),
        is_to_pull(layers, k),
        layers[k].1 == Some(digest),
    ensures
        ({
            let x = pull.get.reference;
            let (next, action) = pull.step(
                EventView::Answered { status, challenge, body: BodyView::Bytes(bytes) },
            );
            let url = x.proto + "://"@ + x.registry + "/v2/"@ + x.repo + "/blobs/"@ + digest;
            &&& next.at_blob
            &&& next.get.url == url
            &&& next.get.accept == Seq::<Seq<char>>::empty()
            &&& next.get.phase is First
            &&& action == ActionView::Send(
                RequestView { url, accept: seq![], auth: AuthView::Anonymous },
            )
        }),
{
    lemma_to_pull(layers, k);
}

/// A manifest from which no layer can be picked ends the pull, and the text tells why: it is no
/// JSON document, lists no layers, or the layer to pull has no digest, even where another has.
pub proof fn law_bad_manifest_is_told(
    pull: PullView,
    status: u16,
    challenge: Option<Seq<u8>>,
    bytes: Seq<u8>,
    k: int,
)
    requires
        !pull.at_blob,
        pull.get.phase is First || pull.get.phase is Basic || pull.get.phase is Bearer,
        200 <= status < 300,
    ensures
        ({
            let action = pull.step(
                EventView::Answered { status, challenge, body: BodyView::Bytes(bytes) },
            ).1;
            match json_items(bytes, "layers"@, "mediaType"@, "digest"@) {
                Err(cause) => action == ActionView::Fail(
                    seq!["OCI manifest is not valid JSON"@, cause],
                ),
                Ok(None) => action == ActionView::Fail(
                    seq!["OCI manifest missing 'layers' array"@],
                ),
                Ok(Some(layers)) => {
                    &&& layers.len() == 0 ==> action == ActionView::Fail(
                        seq!["OCI manifest has no layers"@],
                    )
                    &&& is_to_pull(layers, k) && layers[k].1 is None ==> action == ActionView::Fail(
                        seq!["OCI layer missing 'digest'"@],
                    )
                },
            }
        }),
{
    match json_items(bytes, "layers"@, "mediaType"@, "digest"@) {
        Ok(Some(layers)) => {
            if is_to_pull(layers, k) {
                lemma_to_pull(layers, k);
            }
        },
        _ => {},
    }
}

/// Whether a layer is the one to pull: the first WASM layer, or the first of all where there is
/// none.
pub open spec fn is_to_pull(layers: Seq<(Option<Seq<char>>, Option<Seq<char>>)>, k: int) -> bool {
    &&& 0 <= k < layers.len()
    &&& forall|i: int| 0 <= i < k ==> (#[trigger] layers[i]).0 != Some("application/wasm"@)
    &&& layers[k].0 == Some("application/wasm"@) || (k == 0 && forall|i: int|
        0 <= i < layers.len() ==> (#[trigger] layers[i]).0 != Some("application/wasm"@))
}

/// The layer to pull is the one that is chosen.
proof fn lemma_to_pull(layers: Seq<(Option<Seq<char>>, Option<Seq<char>>)>, k: int)
    requires
        is_to_pull(layers, k),
    ensures
        crate::wasm::oci::chosen_layer(layers) == k,
{
    law_wasm_layer_preferred(layers);
    let c = crate::wasm::oci::chosen_layer(layers);
    if layers[k].0 == Some("application/wasm"@) {
        assert(crate::wasm::oci::has_wasm(layers));
        assert(layers[c].0 == Some("application/wasm"@));
    }
}

/// An answer that reports no success to a request for an address ends the pull with its status
/// and the address; a second request for authentication is such an answer.
pub proof fn law_refusal_is_told(
    pull: PullView,
    status: u16,
    challenge: Option<Seq<u8>>,
    body: BodyView,
)
    requires
        (pull.get.phase is First && status != 401) || pull.get.phase is Basic || pull.get.phase
            is Bearer,
        status < 200 || status >= 300,
    ensures
        pull.step(EventView::Answered { status, challenge, body }).1 == ActionView::Fail(
            seq![
                stage_text(pull.at_blob),
                "OCI "@ + status_text(status) + " "@ + pull.get.url,
            ],
        ),
{
    let action = pull.step(EventView::Answered { status, challenge, body }).1;
    assert(action->Fail_0 =~= seq![
        stage_text(pull.at_blob),
        "OCI "@ + status_text(status) + " "@ + pull.get.url,
    ]);
}

/// A place for tokens that reports no success ends the pull.
pub proof fn law_token_refusal_is_told(
    pull: PullView,
    status: u16,
    challenge: Option<Seq<u8>>,
    body: BodyView,
)
    requires
        pull.get.phase is ChallengeToken || pull.get.phase is AnonymousToken,
        status < 200 || status >= 300,
    ensures
        pull.step(EventView::Answered { status, challenge, body }).1 == ActionView::Fail(
            seq![
                stage_text(pull.at_blob),
                match pull.get.phase {
                    PhaseView::ChallengeToken { realm } => "OCI token endpoint "@ + status_text(
                        status,
                    ) + " "@ + realm,
                    _ => "OCI registry requires authentication and no credentials provided"@,
                },
            ],
        ),
{
    let action = pull.step(EventView::Answered { status, challenge, body }).1;
    assert(action->Fail_0 =~= seq![
        stage_text(pull.at_blob),
        match pull.get.phase {
            PhaseView::ChallengeToken { realm } => "OCI token endpoint "@ + status_text(status)
                + " "@ + realm,
            _ => "OCI registry requires authentication and no credentials provided"@,
        },
    ]);
}

/// A request that could not be sent, and a body that could not be read, end the pull with the
/// cause.
pub proof fn law_broken_connection_is_told(
    pull: PullView,
    cause: Seq<char>,
    status: u16,
    challenge: Option<Seq<u8>>,
)
    requires
        200 <= status < 300,
    ensures
        ({
            let sent = pull.step(EventView::Failed { cause }).1;
            let read = pull.step(
                EventView::Answered { status, challenge, body: BodyView::Unreadable(cause) },
            ).1;
            let stage = stage_text(pull.at_blob);
            let url = pull.get.url;
            &&& read == ActionView::Fail(seq![stage, cause])
            &&& match pull.get.phase {
                PhaseView::First => sent == ActionView::Fail(seq![stage, "GET "@ + url, cause]),
                PhaseView::Basic => sent == ActionView::Fail(
                    seq![stage, "GET "@ + url + " (basic auth)"@, cause],
                ),
                PhaseView::Bearer => sent == ActionView::Fail(
                    seq![stage, "GET "@ + url + " (bearer)"@, cause],
                ),
                PhaseView::ChallengeToken { .. } => sent == ActionView::Fail(
                    seq![stage, "OCI token endpoint request failed"@, cause],
                ),
                PhaseView::AnonymousToken => sent == ActionView::Fail(seq![stage, cause]),
            }
        }),
{
    let sent = pull.step(EventView::Failed { cause }).1;
    let read = pull.step(
        EventView::Answered { status, challenge, body: BodyView::Unreadable(cause) },
    ).1;
    let stage = stage_text(pull.at_blob);
    let url = pull.get.url;
    assert(read->Fail_0 =~= seq![stage, cause]);
    match pull.get.phase {
        PhaseView::First => {
            assert(sent->Fail_0 =~= seq![stage, "GET "@ + url, cause]);
        },
        PhaseView::Basic => {
            assert(sent->Fail_0 =~= seq![stage, "GET "@ + url + " (basic auth)"@, cause]);
        },
        PhaseView::Bearer => {
            assert(sent->Fail_0 =~= seq![stage, "GET "@ + url + " (bearer)"@, cause]);
        },
        PhaseView::ChallengeToken { .. } => {
            assert(sent->Fail_0 =~= seq![stage, "OCI token endpoint request failed"@, cause]);
        },
        PhaseView::AnonymousToken => {
            assert(sent->Fail_0 =~= seq![stage, cause]);
        },
    }
}

/// A status is told with its reason where it has one, and as a number otherwise.
pub proof fn law_status_text(status: u16, t: Seq<char>)
    ensures
        status_line(status) == Some(t) ==> status_text(status) == t,
        status_line(status) is None ==> status_text(status) == decimal(status as nat),
{
}

/// The place for tokens with the service and the scope that the challenge names as query
/// parameters, in that order: the first behind a question mark unless the place has one already.
pub proof fn law_token_place(
    header: Seq<char>,
    realm: Seq<char>,
    service: Seq<char>,
    scope: Seq<char>,
)
    requires
        bearer_param(header, "realm"@) == Some(realm),
        !realm.contains('?'),
    ensures
        ({
            let s = bearer_param(header, "service"@);
            let c = bearer_param(header, "scope"@);
            &&& s is None && c is None ==> token_url(header) == Some(realm)
            &&& s == Some(service) && c is None ==> token_url(header) == Some(
                realm + seq!['?'] + "service"@ + seq!['='] + service,
            )
            &&& s is None && c == Some(scope) ==> token_url(header) == Some(
                realm + seq!['?'] + "scope"@ + seq!['='] + scope,
            )
            &&& s == Some(service) && c == Some(scope) ==> token_url(header) == Some(
                realm + seq!['?'] + "service"@ + seq!['='] + service + seq!['&'] + "scope"@
                    + seq!['='] + scope,
            )
        }),
{
    crate::wasm::challenge::law_params_in_sequence(realm, "service"@, service, "scope"@, scope);
    assert(with_param(realm, "service"@, service) =~= realm + seq!['?'] + "service"@ + seq!['=']
        + service);
    assert(with_param(realm, "scope"@, scope) =~= realm + seq!['?'] + "scope"@ + seq!['='] + scope);
}

/// A place for tokens that has a question mark already gets both parameters behind ampersands.
pub proof fn law_token_place_with_query(
    header: Seq<char>,
    realm: Seq<char>,
    service: Seq<char>,
    scope: Seq<char>,
)
    requires
        bearer_param(header, "realm"@) == Some(realm),
        realm.contains('?'),
    ensures
        ({
            let s = bearer_param(header, "service"@);
            let c = bearer_param(header, "scope"@);
            &&& s is None && c is None ==> token_url(header) == Some(realm)
            &&& s == Some(service) && c is None ==> token_url(header) == Some(
                realm + seq!['&'] + "service"@ + seq!['='] + service,
            )
            &&& s is None && c == Some(scope) ==> token_url(header) == Some(
                realm + seq!['&'] + "scope"@ + seq!['='] + scope,
            )
            &&& s == Some(service) && c == Some(scope) ==> token_url(header) == Some(
                realm + seq!['&'] + "service"@ + seq!['='] + service + seq!['&'] + "scope"@
                    + seq!['='] + scope,
            )
        }),
{
    let i = choose|i: int| 0 <= i < realm.len() && realm[i] == '?';
    let once = with_param(realm, "service"@, service);
    assert(once[i] == '?');
    law_further_param(realm, "service"@, service);
    law_further_param(realm, "scope"@, scope);
    law_further_param(once, "scope"@, scope);
}

/// A parameter behind a question mark stands behind an ampersand.
pub proof fn law_further_param(url: Seq<char>, key: Seq<char>, val: Seq<char>)
    requires
        url.contains('?'),
    ensures
        with_param(url, key, val) == url + seq!['&'] + key + seq!['='] + val,
{
    assert(with_param(url, key, val) =~= url + seq!['&'] + key + seq!['='] + val);
}

/// The value of a parameter stands between quotation marks behind its name and an equals sign; a
/// header without them has none, nor one in which the value does not end, and the text tells
/// which it was.
pub proof fn law_challenge_params(header: Seq<char>, param: Seq<char>)
    ensures
        bearer_param(header, param) matches Some(v) ==> !v.contains('"') && exists|i: int|
            0 <= i && i + param.len() + 2 + v.len() < header.len() && #[trigger] header.subrange(
                i,
                i + param.len() + 2 + v.len() + 1,
            ) == param + seq!['=', '"'] + v + seq!['"'],
        !occurs(header, param + seq!['=', '"']) ==> bearer_param(header, param) is None
            && param_error(header, param) == "Www-Authenticate missing '"@ + param + "'"@,
        occurs(header, param + seq!['=', '"']) && bearer_param(header, param) is None
            ==> param_error(header, param) == "unterminated quoted value in Www-Authenticate"@,
{
    reveal_strlit("=\"");
    let mark = param + seq!['=', '"'];
    assert(param_mark(param) =~= mark);
    if bearer_param(header, param) is Some {
        let v = bearer_param(header, param)->0;
        let rest = after_mark(header, param);
        lemma_first_at(rest, '"');
        let n = crate::text::search::first_at(rest, '"');
        if v.contains('"') {
            let j = choose|j: int| 0 <= j < v.len() && v[j] == '"';
            assert(rest[j] == '"');
        }
        let w = choose|i: int| crate::text::search::stands_at(header, mark, i);
        let i = lemma_first(header, mark, w, 0);
        lemma_place_of(header, mark, i);
        assert(header.subrange(i, i + param.len() + 2 + v.len() + 1) =~= param + seq!['=', '"'] + v
            + seq!['"']) by {
            let whole = header.subrange(i, i + param.len() + 2 + v.len() + 1);
            assert(header.subrange(i, i + mark.len()) == mark);
            assert forall|k: int| 0 <= k < whole.len() implies whole[k] == (param + seq!['=', '"']
                + v + seq!['"'])[k] by {
                if k < mark.len() {
                    assert(header.subrange(i, i + mark.len())[k] == mark[k]);
                } else {
                    assert(rest[k - mark.len()] == header[i + k]);
                }
            }
        }
    }
}

/// There is a first place up to one where the text stands.
proof fn lemma_first(s: Seq<char>, pat: Seq<char>, n: int, i: int) -> (k: int)
    requires
        0 <= i <= n,
        crate::text::search::stands_at(s, pat, n),
        forall|j: int| 0 <= j < i ==> !crate::text::search::stands_at(s, pat, j),
    ensures
        first_occurrence(s, pat, k),
        0 <= k <= n,
    decreases n - i,
{
    if crate::text::search::stands_at(s, pat, i) {
        i
    } else {
        lemma_first(s, pat, n, i + 1)
    }
}

/// The first parameter of a challenge is found, whatever stands before and behind it, as long as
/// its name and an equals sign do not occur earlier.
pub proof fn law_first_param_is_found(
    before: Seq<char>,
    param: Seq<char>,
    value: Seq<char>,
    after: Seq<char>,
)
    requires
        !value.contains('"'),
        first_occurrence(
            before + (param + seq!['=', '"']) + value + seq!['"'] + after,
            param + seq!['=', '"'],
            before.len() as int,
        ),
    ensures
        bearer_param(before + (param + seq!['=', '"']) + value + seq!['"'] + after, param) == Some(
            value,
        ),
{
    reveal_strlit("=\"");
    assert(param_mark(param) =~= param + seq!['=', '"']);
    law_bearer_param_round_trip(before, param, value, after);
}

/// How an address of a registry is read. It begins with `oci://`, or with `oci+http://` for a
/// connection without encryption; a registry and a slash follow; behind them stand the
/// repository and, behind an at sign or else the last colon, the reference, which is `latest`
/// where there is none. Without a slash it is refused.
pub proof fn law_registry_address(registry: Seq<char>, repo: Seq<char>, reference: Seq<char>)
    requires
        !registry.contains('/'),
        !repo.contains('@'),
    ensures
        ({
            let tail = registry + seq!['/'] + repo;
            &&& reference_of("oci://"@ + tail + seq!['@'] + reference) == Some(
                ReferenceView { proto: "https"@, registry, repo, reference },
            )
            &&& reference_of("oci+http://"@ + tail + seq!['@'] + reference) == Some(
                ReferenceView { proto: "http"@, registry, repo, reference },
            )
            &&& !reference.contains('@') && !reference.contains(':') ==> reference_of(
                "oci://"@ + tail + seq![':'] + reference,
            ) == Some(ReferenceView { proto: "https"@, registry, repo, reference })
            &&& !reference.contains('@') && !reference.contains(':') ==> reference_of(
                "oci+http://"@ + tail + seq![':'] + reference,
            ) == Some(ReferenceView { proto: "http"@, registry, repo, reference })
            &&& !repo.contains(':') ==> reference_of("oci://"@ + tail) == Some(
                ReferenceView { proto: "https"@, registry, repo, reference: "latest"@ },
            )
            &&& !repo.contains(':') ==> reference_of("oci+http://"@ + tail) == Some(
                ReferenceView { proto: "http"@, registry, repo, reference: "latest"@ },
            )
            &&& reference_of("oci://"@ + registry) is None
            &&& reference_of("oci+http://"@ + registry) is None
        }),
{
    lemma_tagged(registry, repo, seq!['@'] + reference);
    lemma_tagged(registry, repo, seq![':'] + reference);
    lemma_tagged(registry, repo, seq![]);
    lemma_untagged(registry);
    lemma_behind_at(repo, reference);
    let tail = registry + seq!['/'] + repo;
    assert("oci://"@ + tail + seq!['@'] + reference =~= "oci://"@ + tail + (seq!['@'] + reference));
    assert("oci+http://"@ + tail + seq!['@'] + reference =~= "oci+http://"@ + tail + (seq!['@']
        + reference));
    assert("oci://"@ + tail + seq![':'] + reference =~= "oci://"@ + tail + (seq![':'] + reference));
    assert("oci+http://"@ + tail + seq![':'] + reference =~= "oci+http://"@ + tail + (seq![':']
        + reference));
    assert("oci://"@ + tail + Seq::<char>::empty() =~= "oci://"@ + tail);
    assert("oci+http://"@ + tail + Seq::<char>::empty() =~= "oci+http://"@ + tail);
    assert(repo + (seq!['@'] + reference) =~= repo + seq!['@'] + reference);
    assert(repo + (seq![':'] + reference) =~= repo + seq![':'] + reference);
    assert(repo + Seq::<char>::empty() =~= repo);
    if !reference.contains('@') && !reference.contains(':') {
        lemma_behind_colon(repo, reference);
    }
    if !repo.contains(':') {
        lemma_no_tag(repo);
    }
}

/// What stands behind the registry is taken apart by itself.
proof fn lemma_tagged(registry: Seq<char>, repo: Seq<char>, end: Seq<char>)
    requires
        !registry.contains('/'),
    ensures
        reference_of("oci://"@ + (registry + seq!['/'] + repo) + end) == Some(
            ReferenceView {
                proto: "https"@,
                registry,
                repo: repo_and_reference(repo + end).0,
                reference: repo_and_reference(repo + end).1,
            },
        ),
        reference_of("oci+http://"@ + (registry + seq!['/'] + repo) + end) == Some(
            ReferenceView {
                proto: "http"@,
                registry,
                repo: repo_and_reference(repo + end).0,
                reference: repo_and_reference(repo + end).1,
            },
        ),
{
    let tail = registry + seq!['/'] + (repo + end);
    lemma_schemes(tail);
    law_cut(registry, '/', repo + end);
    assert("oci://"@ + (registry + seq!['/'] + repo) + end =~= "oci://"@ + tail);
    assert("oci+http://"@ + (registry + seq!['/'] + repo) + end =~= "oci+http://"@ + tail);
}

/// An address without a slash is none of a registry.
proof fn lemma_untagged(registry: Seq<char>)
    requires
        !registry.contains('/'),
    ensures
        reference_of("oci://"@ + registry) is None,
        reference_of("oci+http://"@ + registry) is None,
{
    lemma_schemes(registry);
    law_cut(registry, '/', seq![]);
}

/// A reference behind an at sign.
proof fn lemma_behind_at(repo: Seq<char>, reference: Seq<char>)
    requires
        !repo.contains('@'),
    ensures
        repo_and_reference(repo + seq!['@'] + reference) == (repo, reference),
{
    law_cut(repo, '@', reference);
}

/// A reference behind a colon.
proof fn lemma_behind_colon(repo: Seq<char>, reference: Seq<char>)
    requires
        !repo.contains('@'),
        !reference.contains('@'),
        !reference.contains(':'),
    ensures
        repo_and_reference(repo + seq![':'] + reference) == (repo, reference),
{
    let rest = repo + seq![':'] + reference;
    assert(!rest.contains('@')) by {
        if rest.contains('@') {
            let j = choose|j: int| 0 <= j < rest.len() && rest[j] == '@';
            if j < repo.len() {
                assert(repo[j] == '@');
            } else if j > repo.len() {
                assert(reference[j - repo.len() - 1] == '@');
            }
        }
    }
    law_cut(rest, '@', seq![]);
    law_last_mark(repo, ':', reference);
    assert(rest.take(repo.len() as int) =~= repo);
    assert(rest.skip(repo.len() as int + 1) =~= reference);
}

/// No reference at all.
proof fn lemma_no_tag(repo: Seq<char>)
    requires
        !repo.contains('@'),
        !repo.contains(':'),
    ensures
        repo_and_reference(repo) == (repo, "latest"@),
{
    law_cut(repo, '@', seq![]);
    law_last_mark(seq![], ':', repo);
}

/// Both schemes of registries are read and taken off.
proof fn lemma_schemes(tail: Seq<char>)
    ensures
        crate::wasm::oci::scheme_of("oci://"@ + tail) == Some(("https"@, tail)),
        crate::wasm::oci::scheme_of("oci+http://"@ + tail) == Some(("http"@, tail)),
{
    reveal_strlit("oci://");
    reveal_strlit("oci+http://");
    let a = "oci://"@ + tail;
    let b = "oci+http://"@ + tail;
    assert("oci://"@ =~= a.subrange(0, "oci://"@.len() as int));
    assert("oci+http://"@ =~= b.subrange(0, "oci+http://"@.len() as int));
    assert(a.skip("oci://"@.len() as int) =~= tail);
    assert(b.skip("oci+http://"@.len() as int) =~= tail);
    assert(a[3] == ':');
    if "oci+http://"@.is_prefix_of(a) {
        assert(a[3] == "oci+http://"@[3]);
    }
}

/// Where a module comes from: behind `file://` stands a path, an address of the web is taken as
/// it is, and an address of a registry is read. Of an address of a registry that cannot be read
/// its form is told, and any other address is refused for its scheme.
pub proof fn law_module_source(rest: Seq<char>, other: Seq<char>)
    ensures
        source_of("file://"@ + rest) == Some(SourceView::File { path: rest }),
        source_of("http://"@ + rest) == Some(SourceView::Web { url: "http://"@ + rest }),
        source_of("https://"@ + rest) == Some(SourceView::Web { url: "https://"@ + rest }),
        source_of("oci://"@ + rest) == match reference_of("oci://"@ + rest) {
            Some(reference) => Some(SourceView::Registry { reference }),
            None => None,
        },
        source_of("oci+http://"@ + rest) == match reference_of("oci+http://"@ + rest) {
            Some(reference) => Some(SourceView::Registry { reference }),
            None => None,
        },
        source_error("oci://"@ + rest) == "OCI reference must be registry/repo:tag"@,
        source_error("oci+http://"@ + rest) == "OCI reference must be registry/repo:tag"@,
        other.len() == 0 || (other[0] != 'f' && other[0] != 'h' && other[0] != 'o') ==> source_of(
            other,
        ) is None && source_error(other) == "unsupported WASM module URL scheme: "@ + other,
{
    reveal_strlit("file://");
    reveal_strlit("http://");
    reveal_strlit("https://");
    reveal_strlit("oci://");
    reveal_strlit("oci+http://");
    lemma_schemes(rest);
    let f = "file://"@ + rest;
    let h = "http://"@ + rest;
    let s = "https://"@ + rest;
    assert("file://"@ =~= f.subrange(0, 7));
    assert(f.skip(7) =~= rest);
    assert("http://"@ =~= h.subrange(0, 7));
    assert("https://"@ =~= s.subrange(0, 8));
    assert(h[0] == 'h' && s[0] == 'h');
    lemma_first_char(h);
    lemma_first_char(s);
    lemma_first_char("oci://"@ + rest);
    lemma_first_char("oci+http://"@ + rest);
    lemma_first_char(other);
}

/// An address with none of the five beginnings comes from nowhere, and is refused for its scheme.
pub proof fn law_unsupported_scheme(url: Seq<char>)
    requires
        !"file://"@.is_prefix_of(url),
        !"http://"@.is_prefix_of(url),
        !"https://"@.is_prefix_of(url),
        !"oci://"@.is_prefix_of(url),
        !"oci+http://"@.is_prefix_of(url),
    ensures
        source_of(url) is None,
        reference_of(url) is None,
        source_error(url) == "unsupported WASM module URL scheme: "@ + url,
{
}

/// The beginnings of addresses by their first character.
proof fn lemma_first_char(s: Seq<char>)
    ensures
        "file://"@.is_prefix_of(s) ==> s[0] == 'f' && s.len() > 0,
        "http://"@.is_prefix_of(s) ==> s[0] == 'h' && s.len() > 0,
        "https://"@.is_prefix_of(s) ==> s[0] == 'h' && s.len() > 0,
        "oci://"@.is_prefix_of(s) ==> s[0] == 'o' && s.len() > 0,
        "oci+http://"@.is_prefix_of(s) ==> s[0] == 'o' && s.len() > 0,
        ("oci://"@ + s)[0] == 'o',
        ("oci+http://"@ + s)[0] == 'o',
{
    reveal_strlit("file://");
    reveal_strlit("http://");
    reveal_strlit("https://");
    reveal_strlit("oci://");
    reveal_strlit("oci+http://");
    assert("file://"@[0] == 'f' && "http://"@[0] == 'h' && "https://"@[0] == 'h');
    assert("oci://"@[0] == 'o' && "oci+http://"@[0] == 'o');
}

/// A module is object oriented where the name of one of its exports holds `guest-object`
/// anywhere, and it is of the older kind where no export does.
pub proof fn law_world_of_exports(
    exports: Seq<Seq<char>>,
    k: int,
    before: Seq<char>,
    after: Seq<char>,
)
    ensures
        0 <= k < exports.len() && exports[k] == before + "guest-object"@ + after ==> world_of(
            exports,
        ) is ObjectOriented,
        (forall|i: int|
            0 <= i < exports.len() ==> !occurs(#[trigger] exports[i], "guest-object"@)) ==> world_of(
            exports,
        ) is Legacy,
{
    if 0 <= k < exports.len() && exports[k] == before + "guest-object"@ + after {
        law_occurs(before, "guest-object"@, after);
        assert(occurs(exports[k], "guest-object"@));
    }
}

/// A module that was loaded keeps the address it came from and the exports of its bytes, by which
/// its world is told; a failed load changes nothing; and the engine stays the same.
pub proof fn law_loaded_module(
    before: WasmModuleStore,
    after: WasmModuleStore,
    fn_id: Seq<char>,
    source_url: Seq<char>,
    bytes: Seq<u8>,
    r: Result<Arc<CompiledModule>, LoadError>,
)
    requires
        before.loaded(after, fn_id, source_url, bytes, r),
    ensures
        r matches Ok(m) ==> m.source_url@ == source_url && component_exports(m.component)
            == binary_exports(bytes) && (m.world_type is ObjectOriented <==> exists|i: int|
            0 <= i < binary_exports(bytes).len() && occurs(
                #[trigger] binary_exports(bytes)[i],
                "guest-object"@,
            )),
        r is Err ==> after@ == before@,
        after.engine_of() == before.engine_of(),
{
}

} // verus!
