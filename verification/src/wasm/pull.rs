//! The sequence of requests that pulls a module from an OCI registry.
use vstd::prelude::*;
use vstd::string::*;
use crate::json::{json_items, json_member, member_view, read_json_items, read_json_member};
use crate::text::chars::{copy_texts, views};
use crate::text::number::{decimal, to_decimal};
use crate::wasm::challenge::{bearer_param, param_error, token_request, token_url};
use crate::wasm::oci::{
    anonymous_url, blob_url, layer_digest, layer_error, manifest_types, manifest_url, one_text,
    pick_layer, text_with, OciReference, ReferenceView,
};
use crate::web::{header_text, is_success, read_header, status_line, write_status};

verus! {

/// How a request proves who asks.
#[derive(Debug)]
pub enum Auth {
    Anonymous,
    Basic { user: String, password: String },
    Bearer { token: String },
}

/// The model of a proof.
#[verifier::ext_equal]
pub enum AuthView {
    Anonymous,
    Basic { user: Seq<char>, password: Seq<char> },
    Bearer { token: Seq<char> },
}

impl View for Auth {
    type V = AuthView;

    open spec fn view(&self) -> AuthView {
        match self {
            Auth::Anonymous => AuthView::Anonymous,
            Auth::Basic { user, password } => AuthView::Basic { user: user@, password: password@ },
            Auth::Bearer { token } => AuthView::Bearer { token: token@ },
        }
    }
}

/// A request to send: a `GET` of an address.
#[derive(Debug)]
pub struct OciRequest {
    pub url: String,
    pub accept: Vec<String>,
    pub auth: Auth,
}

/// The model of a request.
#[verifier::ext_equal]
pub struct RequestView {
    pub url: Seq<char>,
    pub accept: Seq<Seq<char>>,
    pub auth: AuthView,
}

impl View for OciRequest {
    type V = RequestView;

    open spec fn view(&self) -> RequestView {
        RequestView { url: self.url@, accept: views(self.accept@), auth: self.auth@ }
    }
}

/// What became of a request.
#[derive(Debug)]
pub enum OciEvent {
    /// It could not be sent.
    Failed { cause: String },
    /// It was answered. The body is read where the status reports success; it may turn out
    /// not to be readable.
    Answered { status: u16, challenge: Option<Vec<u8>>, body: Result<Vec<u8>, String> },
}

/// The model of a body.
#[verifier::ext_equal]
pub enum BodyView {
    Bytes(Seq<u8>),
    Unreadable(Seq<char>),
}

/// The model of what became of a request.
#[verifier::ext_equal]
pub enum EventView {
    Failed { cause: Seq<char> },
    Answered { status: u16, challenge: Option<Seq<u8>>, body: BodyView },
}

/// The model of a body that may not be readable.
pub open spec fn body_view(body: Result<Vec<u8>, String>) -> BodyView {
    match body {
        Ok(b) => BodyView::Bytes(b@),
        Err(c) => BodyView::Unreadable(c@),
    }
}

impl View for OciEvent {
    type V = EventView;

    open spec fn view(&self) -> EventView {
        match self {
            OciEvent::Failed { cause } => EventView::Failed { cause: cause@ },
            OciEvent::Answered { status, challenge, body } => EventView::Answered {
                status: *status,
                challenge: match challenge {
                    Some(c) => Some(c@),
                    None => None,
                },
                body: body_view(*body),
            },
        }
    }
}

/// What to do next: send a request, or end with the bytes or with an error. An error lists
/// what failed and its causes, the outermost first.
#[derive(Debug)]
pub enum OciAction {
    Send(OciRequest),
    Done(Vec<u8>),
    Fail(Vec<String>),
}

/// The model of what to do next.
#[verifier::ext_equal]
pub enum ActionView {
    Send(RequestView),
    Done(Seq<u8>),
    Fail(Seq<Seq<char>>),
}

impl View for OciAction {
    type V = ActionView;

    open spec fn view(&self) -> ActionView {
        match self {
            OciAction::Send(r) => ActionView::Send(r@),
            OciAction::Done(b) => ActionView::Done(b@),
            OciAction::Fail(e) => ActionView::Fail(views(e@)),
        }
    }
}

/// How far getting one address has come.
#[derive(Debug)]
pub enum Phase {
    /// The address was asked for without any proof.
    First,
    /// It was asked for with a user and a password.
    Basic,
    /// A token was asked for at the realm that the registry named.
    ChallengeToken { realm: String },
    /// A token was asked for without credentials.
    AnonymousToken,
    /// The address was asked for with a token.
    Bearer,
}

/// The model of how far getting an address has come.
#[verifier::ext_equal]
pub enum PhaseView {
    First,
    Basic,
    ChallengeToken { realm: Seq<char> },
    AnonymousToken,
    Bearer,
}

impl View for Phase {
    type V = PhaseView;

    open spec fn view(&self) -> PhaseView {
        match self {
            Phase::First => PhaseView::First,
            Phase::Basic => PhaseView::Basic,
            Phase::ChallengeToken { realm } => PhaseView::ChallengeToken { realm: realm@ },
            Phase::AnonymousToken => PhaseView::AnonymousToken,
            Phase::Bearer => PhaseView::Bearer,
        }
    }
}

/// Getting one address from a registry.
#[derive(Debug)]
pub struct OciGet {
    pub url: String,
    pub accept: Vec<String>,
    pub credentials: Option<(String, String)>,
    pub reference: OciReference,
    pub phase: Phase,
}

/// The model of getting an address.
#[verifier::ext_equal]
pub struct GetView {
    pub url: Seq<char>,
    pub accept: Seq<Seq<char>>,
    pub credentials: Option<(Seq<char>, Seq<char>)>,
    pub reference: ReferenceView,
    pub phase: PhaseView,
}

/// The model of credentials.
pub open spec fn credentials_view(c: Option<(String, String)>) -> Option<(Seq<char>, Seq<char>)> {
    match c {
        Some(p) => Some((p.0@, p.1@)),
        None => None,
    }
}

impl View for OciGet {
    type V = GetView;

    open spec fn view(&self) -> GetView {
        GetView {
            url: self.url@,
            accept: views(self.accept@),
            credentials: credentials_view(self.credentials),
            reference: self.reference@,
            phase: self.phase@,
        }
    }
}

/// A status as text.
pub open spec fn status_text(status: u16) -> Seq<char> {
    match status_line(status) {
        Some(t) => t,
        None => decimal(status as nat),
    }
}

/// Writes a status as text.
pub fn describe_status(status: u16) -> (r: String)
    ensures
        r@ == status_text(status),
{
    match write_status(status) {
        Some(t) => t,
        None => to_decimal(status as u64),
    }
}

/// The token in an answer, given the texts under its two usual keys, or the message why the
/// answer is no JSON document.
pub open spec fn token_choice(
    token: Result<Option<Seq<char>>, Seq<char>>,
    access_token: Result<Option<Seq<char>>, Seq<char>>,
) -> Result<Option<Seq<char>>, Seq<char>> {
    match token {
        Err(cause) => Err(cause),
        Ok(Some(t)) => Ok(Some(t)),
        Ok(None) => match access_token {
            Ok(Some(t)) => Ok(Some(t)),
            _ => Ok(None),
        },
    }
}

/// Picks the token in an answer, given the texts under its two usual keys.
pub fn pick_token(
    token: Result<Option<String>, String>,
    access_token: Result<Option<String>, String>,
) -> (r: Result<Option<String>, String>)
    ensures
        member_view(r) == token_choice(member_view(token), member_view(access_token)),
{
    match token {
        Err(cause) => Err(cause),
        Ok(Some(t)) => Ok(Some(t)),
        Ok(None) => match access_token {
            Ok(Some(t)) => Ok(Some(t)),
            _ => Ok(None),
        },
    }
}

/// The token in an answer.
pub open spec fn token_in(body: Seq<u8>) -> Result<Option<Seq<char>>, Seq<char>> {
    token_choice(json_member(body, "token"@), json_member(body, "access_token"@))
}

/// Reads the token in an answer.
fn read_token(body: &Vec<u8>) -> (r: Result<Option<String>, String>)
    ensures
        member_view(r) == token_in(body@),
{
    let token: Result<Option<String>, String> = read_json_member(body, "token");
    let access_token: Result<Option<String>, String> = read_json_member(body, "access_token");
    pick_token(token, access_token)
}

impl GetView {
    /// The request for the address itself.
    pub open spec fn request(self, auth: AuthView) -> RequestView {
        RequestView { url: self.url, accept: self.accept, auth }
    }

    /// The proof by user and password, where they are known.
    pub open spec fn basic(self) -> AuthView {
        match self.credentials {
            Some(p) => AuthView::Basic { user: p.0, password: p.1 },
            None => AuthView::Anonymous,
        }
    }

    /// The request for a token.
    pub open spec fn token_request(url: Seq<char>, auth: AuthView) -> RequestView {
        RequestView { url, accept: seq![], auth }
    }

    /// What the answer to a request for the address itself leads to.
    pub open spec fn finished(self, status: u16, body: BodyView) -> ActionView {
        if is_success(status) {
            match body {
                BodyView::Bytes(b) => ActionView::Done(b),
                BodyView::Unreadable(c) => ActionView::Fail(seq![c]),
            }
        } else {
            ActionView::Fail(seq!["OCI "@ + status_text(status) + " "@ + self.url])
        }
    }

    /// What a request for authentication leads to: a token from where the registry says,
    /// else the known user and password, else a token without credentials.
    pub open spec fn challenged(self, challenge: Option<Seq<u8>>) -> (PhaseView, ActionView) {
        let header = match challenge {
            Some(c) => header_text(c),
            None => None,
        };
        match header {
            Some(h) => match token_url(h) {
                Some(url) => (
                    PhaseView::ChallengeToken { realm: bearer_param(h, "realm"@)->0 },
                    ActionView::Send(Self::token_request(url, self.basic())),
                ),
                None => (
                    self.phase,
                    ActionView::Fail(
                        seq!["Www-Authenticate missing 'realm'"@, param_error(h, "realm"@)],
                    ),
                ),
            },
            None => if self.credentials is Some {
                (PhaseView::Basic, ActionView::Send(self.request(self.basic())))
            } else {
                (
                    PhaseView::AnonymousToken,
                    ActionView::Send(
                        Self::token_request(anonymous_url(self.reference), AuthView::Anonymous),
                    ),
                )
            },
        }
    }

    /// What the answer to a request for a token leads to, given what to say where it is no
    /// JSON document, beside the cause, or holds no token.
    pub open spec fn with_token(self, body: BodyView, no_json: Seq<char>, no_token: Seq<char>) -> (
        PhaseView,
        ActionView,
    ) {
        match body {
            BodyView::Unreadable(c) => (self.phase, ActionView::Fail(seq![c])),
            BodyView::Bytes(b) => match token_in(b) {
                Err(cause) => (self.phase, ActionView::Fail(seq![no_json, cause])),
                Ok(None) => (self.phase, ActionView::Fail(seq![no_token])),
                Ok(Some(token)) => (
                    PhaseView::Bearer,
                    ActionView::Send(self.request(AuthView::Bearer { token })),
                ),
            },
        }
    }

    /// What an event leads to: the phase that follows and what to do.
    pub open spec fn step(self, event: EventView) -> (PhaseView, ActionView) {
        match self.phase {
            PhaseView::First => match event {
                EventView::Failed { cause } => (
                    self.phase,
                    ActionView::Fail(seq!["GET "@ + self.url, cause]),
                ),
                EventView::Answered { status, challenge, body } => if status == 401 {
                    self.challenged(challenge)
                } else {
                    (self.phase, self.finished(status, body))
                },
            },
            PhaseView::Basic => match event {
                EventView::Failed { cause } => (
                    self.phase,
                    ActionView::Fail(seq!["GET "@ + self.url + " (basic auth)"@, cause]),
                ),
                EventView::Answered { status, body, .. } => (
                    self.phase,
                    self.finished(status, body),
                ),
            },
            PhaseView::ChallengeToken { realm } => match event {
                EventView::Failed { cause } => (
                    self.phase,
                    ActionView::Fail(seq!["OCI token endpoint request failed"@, cause]),
                ),
                EventView::Answered { status, body, .. } => if is_success(status) {
                    self.with_token(
                        body,
                        "OCI token response not JSON"@,
                        "OCI token response missing 'token' / 'access_token' field"@,
                    )
                } else {
                    (
                        self.phase,
                        ActionView::Fail(
                            seq!["OCI token endpoint "@ + status_text(status) + " "@ + realm],
                        ),
                    )
                },
            },
            PhaseView::AnonymousToken => match event {
                EventView::Failed { cause } => (self.phase, ActionView::Fail(seq![cause])),
                EventView::Answered { status, body, .. } => if is_success(status) {
                    self.with_token(
                        body,
                        "OCI anonymous token response not JSON"@,
                        "OCI anonymous token missing 'token' field"@,
                    )
                } else {
                    (
                        self.phase,
                        ActionView::Fail(
                            seq![
                                "OCI registry requires authentication and no credentials provided"@,
                            ],
                        ),
                    )
                },
            },
            PhaseView::Bearer => match event {
                EventView::Failed { cause } => (
                    self.phase,
                    ActionView::Fail(seq!["GET "@ + self.url + " (bearer)"@, cause]),
                ),
                EventView::Answered { status, body, .. } => (
                    self.phase,
                    self.finished(status, body),
                ),
            },
        }
    }
}

/// An error of one text.
fn fail(text: String) -> (r: OciAction)
    ensures
        r@ == ActionView::Fail(seq![text@]),
{
    OciAction::Fail(one_text(text.as_str()))
}

/// An error and its cause.
fn fail_with(text: String, cause: String) -> (r: OciAction)
    ensures
        r@ == ActionView::Fail(seq![text@, cause@]),
{
    OciAction::Fail(text_with(text.as_str(), cause))
}

impl OciGet {
    /// Gets an address, accepting the given kinds of answer.
    pub fn new(
        url: String,
        accept: Vec<String>,
        credentials: Option<(String, String)>,
        reference: OciReference,
    ) -> (r: Self)
        ensures
            r@ == (GetView {
                url: url@,
                accept: views(accept@),
                credentials: credentials_view(credentials),
                reference: reference@,
                phase: PhaseView::First,
            }),
    {
        OciGet { url, accept, credentials, reference, phase: Phase::First }
    }

    /// The request for the address itself.
    pub fn request(&self, auth: Auth) -> (r: OciRequest)
        ensures
            r@ == self@.request(auth@),
    {
        OciRequest { url: self.url.clone(), accept: copy_texts(&self.accept), auth }
    }

    /// The proof by user and password, where they are known.
    fn basic(&self) -> (r: Auth)
        ensures
            r@ == self@.basic(),
    {
        match &self.credentials {
            Some(p) => Auth::Basic { user: p.0.clone(), password: p.1.clone() },
            None => Auth::Anonymous,
        }
    }

    /// The text of a failed request for the address itself.
    fn get_text(&self, tail: &str) -> (r: String)
        ensures
            r@ == "GET "@ + self@.url + tail@,
    {
        let mut r: String = "GET ".to_owned();
        r.append(self.url.as_str());
        r.append(tail);
        r
    }

    /// What the answer to a request for the address itself leads to.
    fn finished(&self, status: u16, body: Result<Vec<u8>, String>) -> (r: OciAction)
        ensures
            r@ == self@.finished(status, body_view(body)),
    {
        if status >= 200 && status < 300 {
            match body {
                Ok(b) => OciAction::Done(b),
                Err(c) => fail(c),
            }
        } else {
            let mut text: String = "OCI ".to_owned();
            text.append(describe_status(status).as_str());
            text.append(" ");
            text.append(self.url.as_str());
            fail(text)
        }
    }

    /// What a request for authentication leads to.
    fn challenged(&mut self, challenge: Option<Vec<u8>>) -> (r: OciAction)
        ensures
            final(self)@ == (GetView {
                phase: old(self)@.challenged(
                    match challenge {
                        Some(c) => Some(c@),
                        None => None,
                    },
                ).0,
                ..old(self)@
            }),
            r@ == old(self)@.challenged(
                match challenge {
                    Some(c) => Some(c@),
                    None => None,
                },
            ).1,
    {
        let header: Option<String> = match &challenge {
            Some(c) => read_header(c),
            None => None,
        };
        match header {
            Some(h) => match token_request(h.as_str()) {
                Ok((realm, url)) => {
                    let auth: Auth = self.basic();
                    self.phase = Phase::ChallengeToken { realm };
                    let request = OciRequest { url, accept: Vec::new(), auth };
                    assert(request@ =~= GetView::token_request(url@, auth@));
                    OciAction::Send(request)
                },
                Err(e) => fail_with("Www-Authenticate missing 'realm'".to_owned(), e),
            },
            None => {
                if self.credentials.is_some() {
                    let auth: Auth = self.basic();
                    self.phase = Phase::Basic;
                    OciAction::Send(self.request(auth))
                } else {
                    self.phase = Phase::AnonymousToken;
                    let request = OciRequest {
                        url: self.reference.anonymous_url(),
                        accept: Vec::new(),
                        auth: Auth::Anonymous,
                    };
                    assert(request@ =~= GetView::token_request(
                        anonymous_url(self@.reference),
                        AuthView::Anonymous,
                    ));
                    OciAction::Send(request)
                }
            },
        }
    }

    /// What the answer to a request for a token leads to.
    fn with_token(&mut self, body: Result<Vec<u8>, String>, no_json: &str, no_token: &str) -> (r:
        OciAction)
        ensures
            final(self)@ == (GetView {
                phase: old(self)@.with_token(body_view(body), no_json@, no_token@).0,
                ..old(self)@
            }),
            r@ == old(self)@.with_token(body_view(body), no_json@, no_token@).1,
    {
        match body {
            Err(c) => fail(c),
            Ok(b) => match read_token(&b) {
                Err(cause) => fail_with(no_json.to_owned(), cause),
                Ok(None) => fail(no_token.to_owned()),
                Ok(Some(token)) => {
                    self.phase = Phase::Bearer;
                    OciAction::Send(self.request(Auth::Bearer { token }))
                },
            },
        }
    }

    /// Decides what follows from what became of the last request.
    pub fn on_event(&mut self, event: OciEvent) -> (r: OciAction)
        ensures
            final(self)@ == (GetView { phase: old(self)@.step(event@).0, ..old(self)@ }),
            r@ == old(self)@.step(event@).1,
    {
        match event {
            OciEvent::Failed { cause } => match &self.phase {
                Phase::First => {
                    let text: String = self.get_text("");
                    proof {
                        reveal_strlit("");
                        assert(text@ =~= "GET "@ + self@.url);
                    }
                    fail_with(text, cause)
                },
                Phase::Basic => fail_with(self.get_text(" (basic auth)"), cause),
                Phase::ChallengeToken { realm } => fail_with(
                    "OCI token endpoint request failed".to_owned(),
                    cause,
                ),
                Phase::AnonymousToken => fail(cause),
                Phase::Bearer => fail_with(self.get_text(" (bearer)"), cause),
            },
            OciEvent::Answered { status, challenge, body } => match &self.phase {
                Phase::First => {
                    if status == 401 {
                        self.challenged(challenge)
                    } else {
                        self.finished(status, body)
                    }
                },
                Phase::Basic => self.finished(status, body),
                Phase::ChallengeToken { realm } => {
                    if status >= 200 && status < 300 {
                        self.with_token(
                            body,
                            "OCI token response not JSON",
                            "OCI token response missing 'token' / 'access_token' field",
                        )
                    } else {
                        let mut text: String = "OCI token endpoint ".to_owned();
                        text.append(describe_status(status).as_str());
                        text.append(" ");
                        text.append(realm.as_str());
                        fail(text)
                    }
                },
                Phase::AnonymousToken => {
                    if status >= 200 && status < 300 {
                        self.with_token(
                            body,
                            "OCI anonymous token response not JSON",
                            "OCI anonymous token missing 'token' field",
                        )
                    } else {
                        fail(
                            "OCI registry requires authentication and no credentials provided".to_owned(),
                        )
                    }
                },
                Phase::Bearer => self.finished(status, body),
            },
        }
    }
}

/// How many requests can still follow after one phase.
pub open spec fn requests_left(phase: PhaseView) -> nat {
    match phase {
        PhaseView::First => 2,
        PhaseView::Basic => 0,
        PhaseView::ChallengeToken { .. } => 1,
        PhaseView::AnonymousToken => 1,
        PhaseView::Bearer => 0,
    }
}

/// Getting an address ends after at most three requests, whatever the registry answers: each
/// request that follows another leaves fewer to follow.
pub proof fn law_get_ends(get: GetView, event: EventView)
    ensures
        get.step(event).1 is Send ==> requests_left(get.step(event).0) < requests_left(get.phase),
{
}

/// Only an answer that reports success to a request for the address itself gives its bytes,
/// and it gives them unchanged.
pub proof fn law_bytes_come_from_success(get: GetView, event: EventView)
    ensures
        get.step(event).1 matches ActionView::Done(b) ==> (event matches EventView::Answered {
            status,
            challenge,
            body,
        } && is_success(status) && body == BodyView::Bytes(b) && (get.phase is First || get.phase
            is Basic || get.phase is Bearer)),
{
}

/// The password is sent only where the registry asked for authentication, and only to the
/// address itself or to the place for tokens that the registry named.
pub proof fn law_password_sent_on_challenge(get: GetView, event: EventView)
    ensures
        (get.step(event).1 matches ActionView::Send(r) && r.auth is Basic) ==> {
            let sent = get.step(event).1->Send_0;
            &&& get.phase is First
            &&& get.credentials is Some
            &&& sent.auth == get.basic()
            &&& event matches EventView::Answered { status, challenge, body }
            &&& status == 401
            &&& sent.url == get.url || (challenge is Some && header_text(challenge->0) is Some
                && token_url(header_text(challenge->0)->0) == Some(sent.url))
        },
{
}

/// Pulling a module: first its manifest, then the blob of the layer that is picked.
#[derive(Debug)]
pub struct OciPull {
    pub get: OciGet,
    pub at_blob: bool,
}

/// The model of pulling a module.
#[verifier::ext_equal]
pub struct PullView {
    pub get: GetView,
    pub at_blob: bool,
}

impl View for OciPull {
    type V = PullView;

    open spec fn view(&self) -> PullView {
        PullView { get: self.get@, at_blob: self.at_blob }
    }
}

/// Getting the manifest of a reference.
pub open spec fn manifest_get(
    reference: ReferenceView,
    credentials: Option<(Seq<char>, Seq<char>)>,
) -> GetView {
    GetView {
        url: manifest_url(reference),
        accept: manifest_types(),
        credentials,
        reference,
        phase: PhaseView::First,
    }
}

/// Getting a blob of a reference.
pub open spec fn blob_get(
    reference: ReferenceView,
    credentials: Option<(Seq<char>, Seq<char>)>,
    digest: Seq<char>,
) -> GetView {
    GetView {
        url: blob_url(reference, digest),
        accept: seq![],
        credentials,
        reference,
        phase: PhaseView::First,
    }
}

/// The layers that a manifest lists, each with its media type and its digest.
pub open spec fn manifest_layers(manifest: Seq<u8>) -> Result<
    Option<Seq<(Option<Seq<char>>, Option<Seq<char>>)>>,
    Seq<char>,
> {
    json_items(manifest, "layers"@, "mediaType"@, "digest"@)
}

impl PullView {
    /// What an event leads to: the state that follows and what to do.
    pub open spec fn step(self, event: EventView) -> (PullView, ActionView) {
        let (phase, action) = self.get.step(event);
        let kept = PullView { get: GetView { phase, ..self.get }, ..self };
        match action {
            ActionView::Send(r) => (kept, ActionView::Send(r)),
            ActionView::Fail(chain) => (
                kept,
                ActionView::Fail(
                    seq![
                        if self.at_blob {
                            "failed to fetch OCI blob"@
                        } else {
                            "failed to fetch OCI manifest"@
                        },
                    ] + chain,
                ),
            ),
            ActionView::Done(bytes) => if self.at_blob {
                (kept, ActionView::Done(bytes))
            } else {
                match layer_digest(manifest_layers(bytes)) {
                    Some(digest) => {
                        let get = blob_get(self.get.reference, self.get.credentials, digest);
                        (
                            PullView { get, at_blob: true },
                            ActionView::Send(get.request(AuthView::Anonymous)),
                        )
                    },
                    None => (
                        kept,
                        ActionView::Fail(layer_error(manifest_layers(bytes))),
                    ),
                }
            },
        }
    }
}

/// A copy of credentials.
fn copy_credentials(c: &Option<(String, String)>) -> (r: Option<(String, String)>)
    ensures
        credentials_view(r) == credentials_view(*c),
{
    match c {
        Some(p) => Some((p.0.clone(), p.1.clone())),
        None => None,
    }
}

impl OciPull {
    /// Pulls a module. The first request is for its manifest.
    pub fn new(reference: OciReference, credentials: Option<(String, String)>) -> (r: (
        Self,
        OciRequest,
    ))
        ensures
            r.0@ == (PullView {
                get: manifest_get(reference@, credentials_view(credentials)),
                at_blob: false,
            }),
            r.1@ == r.0@.get.request(AuthView::Anonymous),
    {
        let mut accept: Vec<String> = Vec::new();
        accept.push("application/vnd.oci.image.manifest.v1+json".to_owned());
        accept.push("application/vnd.docker.distribution.manifest.v2+json".to_owned());
        assert(views(accept@) =~= manifest_types());
        let get = OciGet::new(reference.manifest_url(), accept, credentials, reference);
        let request: OciRequest = get.request(Auth::Anonymous);
        (OciPull { get, at_blob: false }, request)
    }

    /// Decides what follows from what became of the last request.
    pub fn on_event(&mut self, event: OciEvent) -> (r: OciAction)
        ensures
            (final(self)@, r@) == old(self)@.step(event@),
    {
        match self.get.on_event(event) {
            OciAction::Send(r) => OciAction::Send(r),
            OciAction::Fail(chain) => {
                let context: String = if self.at_blob {
                    "failed to fetch OCI blob".to_owned()
                } else {
                    "failed to fetch OCI manifest".to_owned()
                };
                let mut whole: Vec<String> = Vec::new();
                let ghost causes = views(chain@);
                whole.push(context);
                let mut chain = chain;
                whole.append(&mut chain);
                assert(views(whole@) =~= seq![context@] + causes);
                OciAction::Fail(whole)
            },
            OciAction::Done(bytes) => {
                if self.at_blob {
                    return OciAction::Done(bytes);
                }
                match pick_layer(read_json_items(&bytes, "layers", "mediaType", "digest")) {
                    Ok(digest) => {
                        let reference: OciReference = self.get.reference.copy();
                        let credentials: Option<(String, String)> = copy_credentials(
                            &self.get.credentials,
                        );
                        let accept: Vec<String> = Vec::new();
                        assert(views(accept@) =~= seq![]);
                        let get = OciGet::new(
                            reference.blob_url(digest.as_str()),
                            accept,
                            credentials,
                            reference,
                        );
                        let request: OciRequest = get.request(Auth::Anonymous);
                        self.get = get;
                        self.at_blob = true;
                        OciAction::Send(request)
                    },
                    Err(chain) => OciAction::Fail(chain),
                }
            },
        }
    }
}

/// A pull ends after at most six requests, whatever the registry answers.
pub proof fn law_pull_ends(pull: PullView, event: EventView)
    ensures
        pull.step(event).1 is Send ==> pull_requests_left(pull.step(event).0) < pull_requests_left(
            pull,
        ),
{
}

/// How many requests can still follow in a pull.
pub open spec fn pull_requests_left(pull: PullView) -> nat {
    requests_left(pull.get.phase) + if pull.at_blob {
        0nat
    } else {
        3
    }
}

} // verus!
