//! The user-action signing protocol as a state machine.
//!
//! A request that needs a user action signature is issued in three round trips:
//! `POST /auth/action/init` returns a challenge bound to the request's method,
//! canonical path and payload; the caller's signer signs it; `POST /auth/action`
//! exchanges the assertion for a token; the request itself is then sent with the
//! token. The transport performs each [`Action`] (an HTTP exchange, a JSON decode,
//! a call of the signer) and feeds its result back as an [`Event`]; [`Client::step`]
//! decides what comes next.

use vstd::prelude::*;

use crate::client::{
    bytes_result_view, handle_response, is_success, spec_handle_response, BodyView, Client, ClientView,
    HttpReply, HttpRequest, MultipartFile, ReplyView, RequestBody, RequestView,
};
use crate::error::{Error, ErrorView};
use crate::json::{
    complete_object, init_object, law_complete_body_members, law_init_body_members,
    complete_request_body, fields_view, init_request_body, spec_complete_body, spec_init_body,
    spec_upload_data, upload_data, JsonField,
};
use crate::signer::{AssertionView, ChallengeView, CredentialAssertion, UserActionChallenge};
use crate::outside::spec_utf8_lossy;
use crate::text::{spec_upload_file_name, upload_file_name};

verus! {

/// Where an exchange stands. `target` is the request to send once a token is at
/// hand; without one, the exchange ends with the challenge or with the token.
#[allow(inconsistent_fields)]
pub enum Exchange {
    /// Waiting for the reply of `POST /auth/action/init`.
    AwaitInit { target: Option<HttpRequest> },
    /// Waiting for the challenge decoded from that reply.
    AwaitChallenge { target: Option<HttpRequest> },
    /// Waiting for the signer's assertion on the challenge.
    AwaitAssertion { target: HttpRequest, challenge_identifier: String },
    /// Waiting for the reply of `POST /auth/action`.
    AwaitComplete { target: Option<HttpRequest> },
    /// Waiting for the token decoded from that reply.
    AwaitUserAction { target: Option<HttpRequest> },
    /// Waiting for the reply of the request itself.
    AwaitTarget,
    /// Done.
    Finished,
}

/// The content of an [`Exchange`].
#[verifier::ext_equal]
#[allow(inconsistent_fields)]
pub enum ExchangeView {
    AwaitInit { target: Option<RequestView> },
    AwaitChallenge { target: Option<RequestView> },
    AwaitAssertion { target: RequestView, challenge_identifier: Seq<char> },
    AwaitComplete { target: Option<RequestView> },
    AwaitUserAction { target: Option<RequestView> },
    AwaitTarget,
    Finished,
}

/// The content of an optional request.
pub open spec fn opt_request_view(r: Option<HttpRequest>) -> Option<RequestView> {
    match r {
        Some(t) => Some(t@),
        None => None,
    }
}

impl View for Exchange {
    type V = ExchangeView;

    open spec fn view(&self) -> ExchangeView {
        match self {
            Exchange::AwaitInit { target } => ExchangeView::AwaitInit { target: opt_request_view(*target) },
            Exchange::AwaitChallenge { target } => ExchangeView::AwaitChallenge {
                target: opt_request_view(*target),
            },
            Exchange::AwaitAssertion { target, challenge_identifier } => ExchangeView::AwaitAssertion {
                target: target@,
                challenge_identifier: challenge_identifier@,
            },
            Exchange::AwaitComplete { target } => ExchangeView::AwaitComplete {
                target: opt_request_view(*target),
            },
            Exchange::AwaitUserAction { target } => ExchangeView::AwaitUserAction {
                target: opt_request_view(*target),
            },
            Exchange::AwaitTarget => ExchangeView::AwaitTarget,
            Exchange::Finished => ExchangeView::Finished,
        }
    }
}

/// What an exchange ends with.
#[derive(Debug)]
pub enum Outcome {
    /// The body of the request's 2xx reply.
    Body(Vec<u8>),
    /// The challenge to be signed (for an exchange that stops there).
    Challenge(UserActionChallenge),
    /// The user-action token (for an exchange that stops there).
    UserAction(String),
}

/// The content of an [`Outcome`].
#[verifier::ext_equal]
pub enum OutcomeView {
    Body(Seq<u8>),
    Challenge(ChallengeView),
    UserAction(Seq<char>),
}

impl View for Outcome {
    type V = OutcomeView;

    open spec fn view(&self) -> OutcomeView {
        match self {
            Outcome::Body(b) => OutcomeView::Body(b@),
            Outcome::Challenge(c) => OutcomeView::Challenge(c@),
            Outcome::UserAction(t) => OutcomeView::UserAction(t@),
        }
    }
}

/// The work the transport is asked to do next.
#[derive(Debug)]
pub enum Action {
    /// Perform this HTTP request and report the reply.
    Send(HttpRequest),
    /// Decode a `UserActionChallenge` from these bytes.
    DecodeChallenge(Vec<u8>),
    /// Have the configured signer sign this challenge.
    Sign(UserActionChallenge),
    /// Decode the `userAction` token from these bytes.
    DecodeUserAction(Vec<u8>),
    /// The exchange is over, with this result.
    Finish(Result<Outcome, Error>),
}

/// The content of an [`Action`].
#[verifier::ext_equal]
pub enum ActionView {
    Send(RequestView),
    DecodeChallenge(Seq<u8>),
    Sign(ChallengeView),
    DecodeUserAction(Seq<u8>),
    Finish(Result<OutcomeView, ErrorView>),
}

impl View for Action {
    type V = ActionView;

    open spec fn view(&self) -> ActionView {
        match self {
            Action::Send(r) => ActionView::Send(r@),
            Action::DecodeChallenge(b) => ActionView::DecodeChallenge(b@),
            Action::Sign(c) => ActionView::Sign(c@),
            Action::DecodeUserAction(b) => ActionView::DecodeUserAction(b@),
            Action::Finish(r) => ActionView::Finish(
                match r {
                    Ok(o) => Ok(o@),
                    Err(e) => Err(e@),
                },
            ),
        }
    }
}

/// What the transport reports back.
pub enum Event {
    /// The reply to a [`Action::Send`], or the transport failure.
    Replied(Result<HttpReply, reqwest::Error>),
    /// The result of an [`Action::DecodeChallenge`].
    ChallengeDecoded(Result<UserActionChallenge, serde_json::Error>),
    /// The result of an [`Action::Sign`].
    Signed(Result<CredentialAssertion, Error>),
    /// The result of an [`Action::DecodeUserAction`].
    UserActionDecoded(Result<String, serde_json::Error>),
}

/// The content of an [`Event`].
pub enum EventView {
    Replied(Result<ReplyView, reqwest::Error>),
    ChallengeDecoded(Result<ChallengeView, serde_json::Error>),
    Signed(Result<AssertionView, ErrorView>),
    UserActionDecoded(Result<Seq<char>, serde_json::Error>),
}

impl View for Event {
    type V = EventView;

    open spec fn view(&self) -> EventView {
        match self {
            Event::Replied(r) => EventView::Replied(
                match r {
                    Ok(x) => Ok(x@),
                    Err(e) => Err(*e),
                },
            ),
            Event::ChallengeDecoded(r) => EventView::ChallengeDecoded(
                match r {
                    Ok(x) => Ok(x@),
                    Err(e) => Err(*e),
                },
            ),
            Event::Signed(r) => EventView::Signed(
                match r {
                    Ok(x) => Ok(x@),
                    Err(e) => Err(e@),
                },
            ),
            Event::UserActionDecoded(r) => EventView::UserActionDecoded(
                match r {
                    Ok(x) => Ok(x@),
                    Err(e) => Err(*e),
                },
            ),
        }
    }
}

// ---------------------------------------------------------------------------
// The protocol

/// A request to the API: method, base URL followed by the path, the client's
/// bearer token, this body, and no user-action token yet.
pub open spec fn spec_request(c: ClientView, method: Seq<char>, path: Seq<char>, body: BodyView) -> RequestView {
    RequestView { method, url: c.base_url + path, bearer: c.auth_token, body, user_action: None }
}

/// The same request carrying a user-action token.
pub open spec fn with_user_action(r: RequestView, token: Seq<char>) -> RequestView {
    RequestView { user_action: Some(token), ..r }
}

/// `POST /auth/action/init` for a request with this method, path and payload.
pub open spec fn spec_init_request(c: ClientView, method: Seq<char>, path: Seq<char>, payload: Seq<char>) -> RequestView {
    spec_request(c, "POST"@, "/auth/action/init"@, BodyView::Json(spec_init_body(method, path, payload)))
}

/// `POST /auth/action` for a signed challenge.
pub open spec fn spec_complete_request(c: ClientView, challenge_identifier: Seq<char>, a: AssertionView) -> RequestView {
    spec_request(c, "POST"@, "/auth/action"@, BodyView::Json(spec_complete_body(challenge_identifier, a)))
}

/// The body a request with this optional JSON text carries.
pub open spec fn json_body(body: Option<Seq<char>>) -> BodyView {
    match body {
        Some(t) => BodyView::Json(t),
        None => BodyView::Empty,
    }
}

/// The payload a user action over a request with this optional JSON text binds.
pub open spec fn json_payload(body: Option<Seq<char>>) -> Seq<char> {
    match body {
        Some(t) => t,
        None => seq![],
    }
}

/// How an exchange starts for a request: unsigned requests are sent at once; a
/// request that needs a user action fails with `SignerRequired` when no signer is
/// configured, and otherwise opens the challenge for the method, path and payload.
pub open spec fn spec_start_request(
    c: ClientView,
    method: Seq<char>,
    path: Seq<char>,
    body: Option<Seq<char>>,
    requires_user_action: bool,
    has_signer: bool,
) -> (ExchangeView, ActionView) {
    spec_start_signed(c, method, path, json_body(body), json_payload(body), requires_user_action, has_signer)
}

/// How an exchange starts for a request with this body, whose user action binds `payload`.
pub open spec fn spec_start_signed(
    c: ClientView,
    method: Seq<char>,
    path: Seq<char>,
    body: BodyView,
    payload: Seq<char>,
    requires_user_action: bool,
    has_signer: bool,
) -> (ExchangeView, ActionView) {
    let target = spec_request(c, method, path, body);
    if !requires_user_action {
        (ExchangeView::AwaitTarget, ActionView::Send(target))
    } else if !has_signer {
        (ExchangeView::Finished, ActionView::Finish(Err(ErrorView::SignerRequired)))
    } else {
        (
            ExchangeView::AwaitInit { target: Some(target) },
            ActionView::Send(spec_init_request(c, method, path, payload)),
        )
    }
}

/// The content of an upload's file part.
pub open spec fn upload_body(fields: Seq<(Seq<char>, Seq<char>)>, file_name: Seq<char>, file: Seq<u8>) -> BodyView {
    BodyView::Multipart {
        data: spec_upload_data(fields, file),
        file_name: spec_upload_file_name(file_name),
        file,
    }
}

/// How an exchange starts for an upload: like a request, with the `data` part as
/// the payload the user action binds.
pub open spec fn spec_start_upload(
    c: ClientView,
    method: Seq<char>,
    path: Seq<char>,
    fields: Seq<(Seq<char>, Seq<char>)>,
    file_name: Seq<char>,
    file: Seq<u8>,
    requires_user_action: bool,
    has_signer: bool,
) -> (ExchangeView, ActionView) {
    spec_start_signed(
        c,
        method,
        path,
        upload_body(fields, file_name, file),
        spec_upload_data(fields, file),
        requires_user_action,
        has_signer,
    )
}

/// How the exchange that only fetches a challenge starts.
pub open spec fn spec_start_challenge(c: ClientView, method: Seq<char>, path: Seq<char>, body: Option<Seq<char>>) -> (
    ExchangeView,
    ActionView,
) {
    (ExchangeView::AwaitInit { target: None }, ActionView::Send(spec_init_request(c, method, path, json_payload(body))))
}

/// How the exchange that only submits a signed challenge starts.
pub open spec fn spec_start_completion(c: ClientView, challenge_identifier: Seq<char>, a: AssertionView) -> (
    ExchangeView,
    ActionView,
) {
    (ExchangeView::AwaitComplete { target: None }, ActionView::Send(spec_complete_request(c, challenge_identifier, a)))
}

/// How the exchange for a request with an already obtained token starts.
pub open spec fn spec_start_with_user_action(
    c: ClientView,
    method: Seq<char>,
    path: Seq<char>,
    body: Option<Seq<char>>,
    token: Seq<char>,
) -> (ExchangeView, ActionView) {
    (
        ExchangeView::AwaitTarget,
        ActionView::Send(with_user_action(spec_request(c, method, path, json_body(body)), token)),
    )
}

/// A reply, or the transport failure, as a body or an error.
pub open spec fn replied(r: Result<ReplyView, reqwest::Error>) -> Result<Seq<u8>, ErrorView> {
    match r {
        Ok(reply) => spec_handle_response(reply),
        Err(e) => Err(ErrorView::Transport(e)),
    }
}

/// Whether the exchange is waiting for this kind of event.
pub open spec fn accepts(ex: ExchangeView, ev: EventView) -> bool {
    match ex {
        ExchangeView::AwaitInit { .. } => ev is Replied,
        ExchangeView::AwaitChallenge { .. } => ev is ChallengeDecoded,
        ExchangeView::AwaitAssertion { .. } => ev is Signed,
        ExchangeView::AwaitComplete { .. } => ev is Replied,
        ExchangeView::AwaitUserAction { .. } => ev is UserActionDecoded,
        ExchangeView::AwaitTarget => ev is Replied,
        ExchangeView::Finished => false,
    }
}

/// Whether `act` is the action the exchange `ex` waits on: an exchange waiting for
/// a reply was handed a request to send, one waiting for a decoded challenge the
/// bytes to decode, and so on; a finished exchange was handed its result.
pub open spec fn answers(ex: ExchangeView, act: ActionView) -> bool {
    match act {
        ActionView::Send(_) => ex is AwaitInit || ex is AwaitComplete || ex is AwaitTarget,
        ActionView::DecodeChallenge(_) => ex is AwaitChallenge,
        ActionView::Sign(_) => ex is AwaitAssertion,
        ActionView::DecodeUserAction(_) => ex is AwaitUserAction,
        ActionView::Finish(_) => ex is Finished,
    }
}

/// The end of an exchange with an error.
pub open spec fn failed(e: ErrorView) -> (ExchangeView, ActionView) {
    (ExchangeView::Finished, ActionView::Finish(Err(e)))
}

/// One step of the protocol (for an event the exchange is waiting for).
pub open spec fn spec_step(c: ClientView, ex: ExchangeView, ev: EventView) -> (ExchangeView, ActionView) {
    match (ex, ev) {
        (ExchangeView::AwaitInit { target }, EventView::Replied(r)) => match replied(r) {
            Ok(b) => (ExchangeView::AwaitChallenge { target }, ActionView::DecodeChallenge(b)),
            Err(e) => failed(e),
        },
        (ExchangeView::AwaitChallenge { target }, EventView::ChallengeDecoded(r)) => match r {
            Ok(ch) => match target {
                Some(t) => (
                    ExchangeView::AwaitAssertion { target: t, challenge_identifier: ch.challenge_identifier },
                    ActionView::Sign(ch),
                ),
                None => (ExchangeView::Finished, ActionView::Finish(Ok(OutcomeView::Challenge(ch)))),
            },
            Err(e) => failed(ErrorView::Serde(e)),
        },
        (ExchangeView::AwaitAssertion { target, challenge_identifier }, EventView::Signed(r)) => match r {
            Ok(a) => (
                ExchangeView::AwaitComplete { target: Some(target) },
                ActionView::Send(spec_complete_request(c, challenge_identifier, a)),
            ),
            Err(e) => failed(e),
        },
        (ExchangeView::AwaitComplete { target }, EventView::Replied(r)) => match replied(r) {
            Ok(b) => (ExchangeView::AwaitUserAction { target }, ActionView::DecodeUserAction(b)),
            Err(e) => failed(e),
        },
        (ExchangeView::AwaitUserAction { target }, EventView::UserActionDecoded(r)) => match r {
            Ok(token) => match target {
                Some(t) => (ExchangeView::AwaitTarget, ActionView::Send(with_user_action(t, token))),
                None => (ExchangeView::Finished, ActionView::Finish(Ok(OutcomeView::UserAction(token)))),
            },
            Err(e) => failed(ErrorView::Serde(e)),
        },
        (ExchangeView::AwaitTarget, EventView::Replied(r)) => match replied(r) {
            Ok(b) => (ExchangeView::Finished, ActionView::Finish(Ok(OutcomeView::Body(b)))),
            Err(e) => failed(e),
        },
        _ => arbitrary(),
    }
}

/// The pair of an exchange and an action, by content.
pub open spec fn pair_view(p: (Exchange, Action)) -> (ExchangeView, ActionView) {
    (p.0@, p.1@)
}

/// A reply, or the transport failure, as a body or an error.
fn reply_result(r: Result<HttpReply, reqwest::Error>) -> (res: Result<Vec<u8>, Error>)
    ensures
        bytes_result_view(res) == replied(
            match r {
                Ok(x) => Ok(x@),
                Err(e) => Err(e),
            },
        ),
{
    match r {
        Ok(reply) => handle_response(reply),
        Err(e) => Err(Error::Transport(e)),
    }
}

/// The end of an exchange with an error.
fn fail(e: Error) -> (res: (Exchange, Action))
    ensures
        pair_view(res) == failed(e@),
{
    (Exchange::Finished, Action::Finish(Err(e)))
}

impl Exchange {
    /// Whether the exchange is waiting for this kind of event.
    pub fn accepts(&self, ev: &Event) -> (res: bool)
        ensures
            res == accepts(self@, ev@),
    {
        match self {
            Exchange::AwaitInit { .. } => matches!(ev, Event::Replied(_)),
            Exchange::AwaitChallenge { .. } => matches!(ev, Event::ChallengeDecoded(_)),
            Exchange::AwaitAssertion { .. } => matches!(ev, Event::Signed(_)),
            Exchange::AwaitComplete { .. } => matches!(ev, Event::Replied(_)),
            Exchange::AwaitUserAction { .. } => matches!(ev, Event::UserActionDecoded(_)),
            Exchange::AwaitTarget => matches!(ev, Event::Replied(_)),
            Exchange::Finished => false,
        }
    }
}

impl Client {
    /// A request to the API with this method, path and body, without a token.
    fn request_to(&self, method: &str, path: &str, body: RequestBody) -> (res: HttpRequest)
        ensures
            res@ == spec_request(self@, method@, path@, body@),
    {
        let mut url = self.base_url().to_owned();
        url.append(path);
        HttpRequest {
            method: method.to_owned(),
            url,
            bearer: self.auth_token().to_owned(),
            body,
            user_action: None,
        }
    }

    /// `POST /auth/action/init` for a request with this method, path and payload.
    fn init_request(&self, method: &str, path: &str, payload: &str) -> (res: HttpRequest)
        ensures
            res@ == spec_init_request(self@, method@, path@, payload@),
    {
        let body = init_request_body(method, path, payload);
        self.request_to("POST", "/auth/action/init", RequestBody::Json(body))
    }

    /// `POST /auth/action` for a signed challenge.
    fn complete_request(&self, challenge_identifier: &str, assertion: &CredentialAssertion) -> (res: HttpRequest)
        ensures
            res@ == spec_complete_request(self@, challenge_identifier@, assertion@),
    {
        let body = complete_request_body(challenge_identifier, assertion);
        self.request_to("POST", "/auth/action", RequestBody::Json(body))
    }

    /// Starts the exchange for a request with this body, whose user action binds `payload`.
    fn start_signed(
        &self,
        method: &str,
        path: &str,
        body: RequestBody,
        payload: &str,
        requires_user_action: bool,
        has_signer: bool,
    ) -> (res: (Exchange, Action))
        ensures
            pair_view(res) == spec_start_signed(
                self@,
                method@,
                path@,
                body@,
                payload@,
                requires_user_action,
                has_signer,
            ),
    {
        let target = self.request_to(method, path, body);
        if !requires_user_action {
            (Exchange::AwaitTarget, Action::Send(target))
        } else if !has_signer {
            (Exchange::Finished, Action::Finish(Err(Error::SignerRequired)))
        } else {
            let init = self.init_request(method, path, payload);
            (Exchange::AwaitInit { target: Some(target) }, Action::Send(init))
        }
    }

    /// Starts the exchange for a request whose body is the given JSON text, if any.
    /// `requires_user_action` says whether the request needs a user action signature;
    /// `has_signer` whether the transport can sign one.
    pub fn start_request(
        &self,
        method: &str,
        path: &str,
        body: Option<String>,
        requires_user_action: bool,
        has_signer: bool,
    ) -> (res: (Exchange, Action))
        ensures
            pair_view(res) == spec_start_request(
                self@,
                method@,
                path@,
                body.deep_view(),
                requires_user_action,
                has_signer,
            ),
    {
        let payload = match &body {
            Some(b) => b.clone(),
            None => String::new(),
        };
        let target_body = match body {
            Some(b) => RequestBody::Json(b),
            None => RequestBody::Empty,
        };
        self.start_signed(method, path, target_body, payload.as_str(), requires_user_action, has_signer)
    }

    /// Starts the exchange for an upload: the members of the caller's JSON object
    /// (key order), and the file.
    pub fn start_upload(
        &self,
        method: &str,
        path: &str,
        fields: &Vec<JsonField>,
        file: MultipartFile,
        requires_user_action: bool,
        has_signer: bool,
    ) -> (res: (Exchange, Action))
        ensures
            pair_view(res) == spec_start_upload(
                self@,
                method@,
                path@,
                fields_view(fields@),
                file.file_name@,
                file.bytes@,
                requires_user_action,
                has_signer,
            ),
    {
        let data = upload_data(fields, file.bytes.as_slice());
        let file_name = upload_file_name(file.file_name.as_str());
        let payload = data.clone();
        let body = RequestBody::Multipart { data, file_name, file: file.bytes };
        self.start_signed(method, path, body, payload.as_str(), requires_user_action, has_signer)
    }

    /// Starts the exchange that only fetches the challenge to sign for a request
    /// with this method, path and JSON body; the request must later be issued with
    /// the same method, path and body.
    pub fn start_challenge(&self, method: &str, path: &str, body: Option<String>) -> (res: (Exchange, Action))
        ensures
            pair_view(res) == spec_start_challenge(self@, method@, path@, body.deep_view()),
    {
        let payload = match &body {
            Some(b) => b.clone(),
            None => String::new(),
        };
        let init = self.init_request(method, path, payload.as_str());
        (Exchange::AwaitInit { target: None }, Action::Send(init))
    }

    /// Starts the exchange that submits an externally signed assertion and ends
    /// with the user-action token.
    pub fn start_completion(&self, challenge_identifier: &str, assertion: &CredentialAssertion) -> (res: (
        Exchange,
        Action,
    ))
        ensures
            pair_view(res) == spec_start_completion(self@, challenge_identifier@, assertion@),
    {
        let complete = self.complete_request(challenge_identifier, assertion);
        (Exchange::AwaitComplete { target: None }, Action::Send(complete))
    }

    /// Starts the exchange for a request that carries an already obtained token.
    pub fn start_with_user_action(
        &self,
        method: &str,
        path: &str,
        body: Option<String>,
        user_action_token: &str,
    ) -> (res: (Exchange, Action))
        ensures
            pair_view(res) == spec_start_with_user_action(
                self@,
                method@,
                path@,
                body.deep_view(),
                user_action_token@,
            ),
    {
        let target_body = match body {
            Some(b) => RequestBody::Json(b),
            None => RequestBody::Empty,
        };
        let mut target = self.request_to(method, path, target_body);
        target.user_action = Some(user_action_token.to_owned());
        (Exchange::AwaitTarget, Action::Send(target))
    }

    /// Decides the next step of an exchange from the result of the last action.
    pub fn step(&self, ex: Exchange, ev: Event) -> (res: (Exchange, Action))
        requires
            accepts(ex@, ev@),
        ensures
            pair_view(res) == spec_step(self@, ex@, ev@),
    {
        match ex {
            Exchange::AwaitInit { target } => match ev {
                Event::Replied(r) => match reply_result(r) {
                    Ok(b) => (Exchange::AwaitChallenge { target }, Action::DecodeChallenge(b)),
                    Err(e) => fail(e),
                },
                _ => {
                    proof {
                        assert(false);
                    }
                    fail(Error::SignerRequired)
                },
            },
            Exchange::AwaitChallenge { target } => match ev {
                Event::ChallengeDecoded(r) => match r {
                    Ok(ch) => match target {
                        Some(t) => {
                            let id = ch.challenge_identifier.clone();
                            (Exchange::AwaitAssertion { target: t, challenge_identifier: id }, Action::Sign(ch))
                        },
                        None => (Exchange::Finished, Action::Finish(Ok(Outcome::Challenge(ch)))),
                    },
                    Err(e) => fail(Error::Serde(e)),
                },
                _ => {
                    proof {
                        assert(false);
                    }
                    fail(Error::SignerRequired)
                },
            },
            Exchange::AwaitAssertion { target, challenge_identifier } => match ev {
                Event::Signed(r) => match r {
                    Ok(a) => {
                        let complete = self.complete_request(challenge_identifier.as_str(), &a);
                        (Exchange::AwaitComplete { target: Some(target) }, Action::Send(complete))
                    },
                    Err(e) => fail(e),
                },
                _ => {
                    proof {
                        assert(false);
                    }
                    fail(Error::SignerRequired)
                },
            },
            Exchange::AwaitComplete { target } => match ev {
                Event::Replied(r) => match reply_result(r) {
                    Ok(b) => (Exchange::AwaitUserAction { target }, Action::DecodeUserAction(b)),
                    Err(e) => fail(e),
                },
                _ => {
                    proof {
                        assert(false);
                    }
                    fail(Error::SignerRequired)
                },
            },
            Exchange::AwaitUserAction { target } => match ev {
                Event::UserActionDecoded(r) => match r {
                    Ok(token) => match target {
                        Some(t) => {
                            let mut t = t;
                            t.user_action = Some(token);
                            (Exchange::AwaitTarget, Action::Send(t))
                        },
                        None => (Exchange::Finished, Action::Finish(Ok(Outcome::UserAction(token)))),
                    },
                    Err(e) => fail(Error::Serde(e)),
                },
                _ => {
                    proof {
                        assert(false);
                    }
                    fail(Error::SignerRequired)
                },
            },
            Exchange::AwaitTarget => match ev {
                Event::Replied(r) => match reply_result(r) {
                    Ok(b) => (Exchange::Finished, Action::Finish(Ok(Outcome::Body(b)))),
                    Err(e) => fail(e),
                },
                _ => {
                    proof {
                        assert(false);
                    }
                    fail(Error::SignerRequired)
                },
            },
            Exchange::Finished => {
                proof {
                    assert(false);
                }
                fail(Error::SignerRequired)
            },
        }
    }
}


// ---------------------------------------------------------------------------
// Laws of the protocol

/// How many steps an exchange has left at most.
pub open spec fn stage_rank(ex: ExchangeView) -> nat {
    match ex {
        ExchangeView::AwaitInit { .. } => 5,
        ExchangeView::AwaitChallenge { .. } => 4,
        ExchangeView::AwaitAssertion { .. } => 3,
        ExchangeView::AwaitComplete { .. } => 2,
        ExchangeView::AwaitUserAction { .. } => 1,
        ExchangeView::AwaitTarget => 0,
        ExchangeView::Finished => 0,
    }
}

/// The request an exchange will send once it holds a token.
pub open spec fn pending_target(ex: ExchangeView) -> Option<RequestView> {
    match ex {
        ExchangeView::AwaitInit { target } => target,
        ExchangeView::AwaitChallenge { target } => target,
        ExchangeView::AwaitAssertion { target, .. } => Some(target),
        ExchangeView::AwaitComplete { target } => target,
        ExchangeView::AwaitUserAction { target } => target,
        ExchangeView::AwaitTarget => None,
        ExchangeView::Finished => None,
    }
}

/// Every exchange ends: each step either finishes it or moves it to a stage with
/// fewer steps left, and a step finishes the exchange exactly when it hands out a
/// result.
pub proof fn law_exchange_progress(c: ClientView, ex: ExchangeView, ev: EventView)
    requires
        accepts(ex, ev),
    ensures
        spec_step(c, ex, ev).0 is Finished || stage_rank(spec_step(c, ex, ev).0) < stage_rank(ex),
        spec_step(c, ex, ev).0 is Finished <==> spec_step(c, ex, ev).1 is Finish,
        spec_step(c, ex, ev).0 is AwaitTarget ==> ex is AwaitUserAction && spec_step(c, ex, ev).1 is Send,
        answers(spec_step(c, ex, ev).0, spec_step(c, ex, ev).1),
{
}

/// Every exchange starts by handing out the action its first stage waits on.
pub proof fn law_start_answers(
    c: ClientView,
    method: Seq<char>,
    path: Seq<char>,
    body: BodyView,
    payload: Seq<char>,
    requires_user_action: bool,
    has_signer: bool,
)
    ensures
        answers(
            spec_start_signed(c, method, path, body, payload, requires_user_action, has_signer).0,
            spec_start_signed(c, method, path, body, payload, requires_user_action, has_signer).1,
        ),
{
}

/// The request an exchange was started for travels unchanged through the protocol:
/// each step either ends the exchange, keeps the request pending, or sends it, and
/// then with exactly the token that was just obtained.
pub proof fn law_pending_target_kept(c: ClientView, ex: ExchangeView, ev: EventView, t: RequestView)
    requires
        accepts(ex, ev),
        pending_target(ex) == Some(t),
    ensures
        ({
            let (next, act) = spec_step(c, ex, ev);
            ||| act is Finish
            ||| pending_target(next) == Some(t)
            ||| (ex is AwaitUserAction && (ev matches EventView::UserActionDecoded(Ok(token)) && act
                == ActionView::Send(with_user_action(t, token))))
        }),
{
}

/// A step sends a request that carries a user-action token only when it has just
/// decoded that token from the reply of `POST /auth/action`, and what it sends is
/// the pending request with that token.
pub proof fn law_token_only_after_completion(c: ClientView, ex: ExchangeView, ev: EventView)
    requires
        accepts(ex, ev),
        spec_step(c, ex, ev).1 matches ActionView::Send(r) && r.user_action is Some,
    ensures
        ex is AwaitUserAction,
        ev matches EventView::UserActionDecoded(Ok(token)) && pending_target(ex) matches Some(t)
            && spec_step(c, ex, ev).1 == ActionView::Send(with_user_action(t, token)),
{
}

/// Every failure ends the exchange with its error: a transport failure as
/// `Transport`, a non-2xx reply as the error it reports, an undecodable reply as
/// `Serde`, and the signer's own error as it is.
pub proof fn law_failure_ends_exchange(c: ClientView, ex: ExchangeView, ev: EventView)
    requires
        accepts(ex, ev),
    ensures
        ev matches EventView::Replied(r) ==> (replied(r) matches Err(e) ==> spec_step(c, ex, ev) == failed(e)),
        ev matches EventView::Replied(Err(e)) ==> spec_step(c, ex, ev) == failed(ErrorView::Transport(e)),
        ev matches EventView::ChallengeDecoded(Err(e)) ==> spec_step(c, ex, ev) == failed(ErrorView::Serde(e)),
        ev matches EventView::UserActionDecoded(Err(e)) ==> spec_step(c, ex, ev) == failed(ErrorView::Serde(e)),
        ev matches EventView::Signed(Err(e)) ==> spec_step(c, ex, ev) == failed(e),
        forall|e: ErrorView| #[trigger] failed(e) == (ExchangeView::Finished, ActionView::Finish(Err(e))),
{
}

/// A request that needs a user action, with a signer configured, goes through the
/// whole dance: the challenge is opened for its method, canonical path and the very
/// payload it carries; the challenge goes to the signer; the assertion is submitted
/// with the challenge's identifier; and the token obtained is attached to the
/// request, which is sent with the same method, URL, bearer token and body.
pub proof fn law_signed_request_flow(
    c: ClientView,
    method: Seq<char>,
    path: Seq<char>,
    body: Option<Seq<char>>,
    init_reply: ReplyView,
    ch: ChallengeView,
    assertion: AssertionView,
    complete_reply: ReplyView,
    token: Seq<char>,
)
    requires
        is_success(init_reply.status),
        is_success(complete_reply.status),
    ensures
        ({
            let (ex0, a0) = spec_start_request(c, method, path, body, true, true);
            let (ex1, a1) = spec_step(c, ex0, EventView::Replied(Ok(init_reply)));
            let (ex2, a2) = spec_step(c, ex1, EventView::ChallengeDecoded(Ok(ch)));
            let (ex3, a3) = spec_step(c, ex2, EventView::Signed(Ok(assertion)));
            let (ex4, a4) = spec_step(c, ex3, EventView::Replied(Ok(complete_reply)));
            let (ex5, a5) = spec_step(c, ex4, EventView::UserActionDecoded(Ok(token)));
            &&& a0 == ActionView::Send(spec_init_request(c, method, path, json_payload(body)))
            &&& accepts(ex0, EventView::Replied(Ok(init_reply)))
            &&& a1 == ActionView::DecodeChallenge(init_reply.body)
            &&& accepts(ex1, EventView::ChallengeDecoded(Ok(ch)))
            &&& a2 == ActionView::Sign(ch)
            &&& accepts(ex2, EventView::Signed(Ok(assertion)))
            &&& a3 == ActionView::Send(spec_complete_request(c, ch.challenge_identifier, assertion))
            &&& accepts(ex3, EventView::Replied(Ok(complete_reply)))
            &&& a4 == ActionView::DecodeUserAction(complete_reply.body)
            &&& accepts(ex4, EventView::UserActionDecoded(Ok(token)))
            &&& a5 == ActionView::Send(
                with_user_action(spec_request(c, method, path, json_body(body)), token),
            )
            &&& ex5 is AwaitTarget
        }),
        body matches Some(t) ==> json_body(body) == BodyView::Json(t) && json_payload(body) == t,
{
}

/// Delegated signing issues the same requests as signing in place: the challenge
/// fetched on its own is opened exactly as the one of the automatic flow, and the
/// request sent with an externally obtained token is exactly the one the automatic
/// flow sends with that token.
pub proof fn law_delegated_signing_matches(
    c: ClientView,
    method: Seq<char>,
    path: Seq<char>,
    body: Option<Seq<char>>,
    token: Seq<char>,
)
    ensures
        spec_start_challenge(c, method, path, body).1 == spec_start_request(c, method, path, body, true, true).1,
        pending_target(spec_start_request(c, method, path, body, true, true).0) matches Some(t)
            && spec_start_with_user_action(c, method, path, body, token).1 == ActionView::Send(with_user_action(t, token)),
{
}

/// A request that needs a user action fails with `SignerRequired`, sending nothing,
/// when no signer is configured; a request that needs none is sent at once, with no
/// token, and ends with its reply.
pub proof fn law_start_without_signature(
    c: ClientView,
    method: Seq<char>,
    path: Seq<char>,
    body: Option<Seq<char>>,
    has_signer: bool,
    reply: Result<ReplyView, reqwest::Error>,
)
    ensures
        spec_start_request(c, method, path, body, true, false) == failed(ErrorView::SignerRequired),
        ({
            let (ex, a) = spec_start_request(c, method, path, body, false, has_signer);
            &&& a == ActionView::Send(spec_request(c, method, path, json_body(body)))
            &&& spec_request(c, method, path, json_body(body)).user_action is None
            &&& ex is AwaitTarget
            &&& spec_step(c, ex, EventView::Replied(reply)).1 == ActionView::Finish(
                match replied(reply) {
                    Ok(b) => Ok(OutcomeView::Body(b)),
                    Err(e) => Err(e),
                },
            )
        }),
{
}

/// An upload that needs a user action binds its challenge to the upload's `data`
/// part, which is exactly the `data` part it sends.
pub proof fn law_upload_signs_its_data(
    c: ClientView,
    method: Seq<char>,
    path: Seq<char>,
    fields: Seq<(Seq<char>, Seq<char>)>,
    file_name: Seq<char>,
    file: Seq<u8>,
)
    ensures
        ({
            let (ex, a) = spec_start_upload(c, method, path, fields, file_name, file, true, true);
            &&& a == ActionView::Send(spec_init_request(c, method, path, spec_upload_data(fields, file)))
            &&& pending_target(ex) == Some(spec_request(c, method, path, upload_body(fields, file_name, file)))
            &&& upload_body(fields, file_name, file) matches BodyView::Multipart { data, .. }
                && data == spec_upload_data(fields, file)
        }),
{
}

/// The status an API error reports.
pub open spec fn api_status(e: ErrorView) -> Option<u16> {
    match e {
        ErrorView::Api { status, .. } => Some(status),
        ErrorView::ApiRaw { status, .. } => Some(status),
        _ => None,
    }
}

/// A 2xx reply yields its body unchanged; any other status yields an API error
/// with that status: the decoded API error when the body is one, and otherwise the
/// body's text.
pub proof fn law_response_status(r: ReplyView)
    ensures
        is_success(r.status) ==> spec_handle_response(r) == Ok::<Seq<u8>, ErrorView>(r.body),
        !is_success(r.status) ==> (spec_handle_response(r) matches Err(e) && api_status(e) == Some(r.status)),
        is_success(r.status) <==> 200 <= r.status < 300,
        !(200 <= r.status < 300) && r.api_error is Some ==> spec_handle_response(r) == Err::<Seq<u8>, ErrorView>(
            ErrorView::Api { status: r.status, body: r.api_error.unwrap() },
        ),
        !(200 <= r.status < 300) && r.api_error is None ==> spec_handle_response(r) == Err::<Seq<u8>, ErrorView>(
            ErrorView::ApiRaw { status: r.status, raw: spec_utf8_lossy(r.body) },
        ),
{
}


/// The three kinds of result an exchange can end with.
pub enum OutcomeKind {
    Body,
    Challenge,
    UserAction,
}

/// The kind of an outcome.
pub open spec fn outcome_kind(o: OutcomeView) -> OutcomeKind {
    match o {
        OutcomeView::Body(_) => OutcomeKind::Body,
        OutcomeView::Challenge(_) => OutcomeKind::Challenge,
        OutcomeView::UserAction(_) => OutcomeKind::UserAction,
    }
}

/// The kind of result a running exchange ends with when it succeeds: the reply
/// body when a request is pending or being sent; otherwise the challenge, while it
/// is being fetched, or the token, while it is being obtained. A finished exchange
/// has none.
pub open spec fn exchange_kind(ex: ExchangeView) -> Option<OutcomeKind> {
    match ex {
        ExchangeView::AwaitInit { target } => Some(
            if target is Some { OutcomeKind::Body } else { OutcomeKind::Challenge },
        ),
        ExchangeView::AwaitChallenge { target } => Some(
            if target is Some { OutcomeKind::Body } else { OutcomeKind::Challenge },
        ),
        ExchangeView::AwaitAssertion { .. } => Some(OutcomeKind::Body),
        ExchangeView::AwaitComplete { target } => Some(
            if target is Some { OutcomeKind::Body } else { OutcomeKind::UserAction },
        ),
        ExchangeView::AwaitUserAction { target } => Some(
            if target is Some { OutcomeKind::Body } else { OutcomeKind::UserAction },
        ),
        ExchangeView::AwaitTarget => Some(OutcomeKind::Body),
        ExchangeView::Finished => None,
    }
}

/// Each step keeps the kind of result the exchange ends with: a step that goes on
/// leaves the kind as it was, and a step that ends the exchange successfully hands
/// out a result of that kind.
pub proof fn law_outcome_kind_kept(c: ClientView, ex: ExchangeView, ev: EventView)
    requires
        accepts(ex, ev),
    ensures
        ({
            let (next, act) = spec_step(c, ex, ev);
            &&& !(next is Finished) ==> exchange_kind(next) == exchange_kind(ex)
            &&& act matches ActionView::Finish(Ok(o)) ==> exchange_kind(ex) == Some(outcome_kind(o))
        }),
{
}

/// Each way of starting an exchange fixes the kind of result it ends with: a
/// request, with or without a token, and an upload end with the reply body (or, for
/// a request that needs a signer and has none, with an error at once); fetching a
/// challenge ends with the challenge; submitting a signed challenge ends with the
/// token.
pub proof fn law_start_kinds(
    c: ClientView,
    method: Seq<char>,
    path: Seq<char>,
    body: BodyView,
    payload: Seq<char>,
    json: Option<Seq<char>>,
    requires_user_action: bool,
    has_signer: bool,
    token: Seq<char>,
    challenge_identifier: Seq<char>,
    a: AssertionView,
)
    ensures
        ({
            let (ex, act) = spec_start_signed(c, method, path, body, payload, requires_user_action, has_signer);
            ||| exchange_kind(ex) == Some(OutcomeKind::Body)
            ||| ex is Finished && act matches ActionView::Finish(Err(_))
        }),
        exchange_kind(spec_start_with_user_action(c, method, path, json, token).0) == Some(OutcomeKind::Body),
        exchange_kind(spec_start_challenge(c, method, path, json).0) == Some(OutcomeKind::Challenge),
        exchange_kind(spec_start_completion(c, challenge_identifier, a).0) == Some(OutcomeKind::UserAction),
{
}

/// The exchange and action after feeding these events in turn, as long as the
/// exchange accepts each; `None` when there are none or one is not accepted.
pub open spec fn run(c: ClientView, ex: ExchangeView, evs: Seq<EventView>) -> Option<(ExchangeView, ActionView)>
    decreases evs.len(),
{
    if evs.len() == 0 || !accepts(ex, evs[0]) {
        None
    } else if evs.len() == 1 {
        Some(spec_step(c, ex, evs[0]))
    } else {
        run(c, spec_step(c, ex, evs[0]).0, evs.drop_first())
    }
}

/// Whatever events an exchange is fed, when it ends successfully it ends with a
/// result of the kind it was started for.
pub proof fn law_run_ends_with_kind(c: ClientView, ex: ExchangeView, evs: Seq<EventView>, o: OutcomeView)
    requires
        run(c, ex, evs) == Some((ExchangeView::Finished, ActionView::Finish(Ok(o)))),
    ensures
        exchange_kind(ex) == Some(outcome_kind(o)),
    decreases evs.len(),
{
    law_outcome_kind_kept(c, ex, evs[0]);
    if evs.len() > 1 {
        let next = spec_step(c, ex, evs[0]).0;
        if next is Finished {
            assert(!accepts(next, evs.drop_first()[0]));
        } else {
            law_run_ends_with_kind(c, next, evs.drop_first(), o);
        }
    }
}

/// A challenge decoded from the reply of `POST /auth/action/init` is passed on
/// unchanged: an exchange that only fetches the challenge ends with exactly that
/// challenge, and one with a pending request hands exactly that challenge to the
/// signer and remembers its identifier for the completion.
pub proof fn law_challenge_handed_on(c: ClientView, ch: ChallengeView, t: RequestView)
    ensures
        spec_step(c, ExchangeView::AwaitChallenge { target: None }, EventView::ChallengeDecoded(Ok(ch))) == (
            ExchangeView::Finished,
            ActionView::Finish(Ok(OutcomeView::Challenge(ch))),
        ),
        spec_step(c, ExchangeView::AwaitChallenge { target: Some(t) }, EventView::ChallengeDecoded(Ok(ch))) == (
            ExchangeView::AwaitAssertion { target: t, challenge_identifier: ch.challenge_identifier },
            ActionView::Sign(ch),
        ),
{
}

/// A 2xx reply's body is passed on unchanged, whether or not a request is pending:
/// the reply of `POST /auth/action/init` is handed on to be decoded as the challenge,
/// the reply of `POST /auth/action` to be decoded as the token, and the reply of the
/// request itself ends the exchange as its result.
pub proof fn law_reply_body_handed_on(c: ClientView, target: Option<RequestView>, r: ReplyView)
    requires
        200 <= r.status < 300,
    ensures
        spec_step(c, ExchangeView::AwaitInit { target }, EventView::Replied(Ok(r))) == (
            ExchangeView::AwaitChallenge { target },
            ActionView::DecodeChallenge(r.body),
        ),
        spec_step(c, ExchangeView::AwaitComplete { target }, EventView::Replied(Ok(r))) == (
            ExchangeView::AwaitUserAction { target },
            ActionView::DecodeUserAction(r.body),
        ),
        spec_step(c, ExchangeView::AwaitTarget, EventView::Replied(Ok(r))) == (
            ExchangeView::Finished,
            ActionView::Finish(Ok(OutcomeView::Body(r.body))),
        ),
{
}

/// A decoded token is passed on unchanged: an exchange that only obtains the token
/// ends with exactly that token, and one with a pending request sends that request,
/// otherwise unchanged, with exactly that token.
pub proof fn law_token_handed_on(c: ClientView, token: Seq<char>, t: RequestView)
    ensures
        spec_step(c, ExchangeView::AwaitUserAction { target: None }, EventView::UserActionDecoded(Ok(token))) == (
            ExchangeView::Finished,
            ActionView::Finish(Ok(OutcomeView::UserAction(token))),
        ),
        spec_step(c, ExchangeView::AwaitUserAction { target: Some(t) }, EventView::UserActionDecoded(Ok(token)))
            == (
            ExchangeView::AwaitTarget,
            ActionView::Send(RequestView { user_action: Some(token), ..t }),
        ),
{
}

/// Opening a challenge binds it to the request it is for: `POST` to
/// `/auth/action/init` under the client's base URL, with its bearer token and no
/// user-action token, carrying the JSON object of the request's own method, its
/// canonical path, its payload and the server kind `Api`; the request kept pending
/// is the request itself, with that same method, under the base URL at that path,
/// with that body.
pub proof fn law_challenge_bound_to_request(c: ClientView, method: Seq<char>, path: Seq<char>, body: Option<Seq<char>>)
    ensures
        ({
            let (ex, a) = spec_start_request(c, method, path, body, true, true);
            let payload = match body {
                Some(t) => t,
                None => seq![],
            };
            &&& a == ActionView::Send(
                RequestView {
                    method: "POST"@,
                    url: c.base_url + "/auth/action/init"@,
                    bearer: c.auth_token,
                    body: BodyView::Json(init_object(method, path, payload)),
                    user_action: None,
                },
            )
            &&& pending_target(ex) == Some(
                RequestView {
                    method,
                    url: c.base_url + path,
                    bearer: c.auth_token,
                    body: match body {
                        Some(t) => BodyView::Json(t),
                        None => BodyView::Empty,
                    },
                    user_action: None,
                },
            )
        }),
{
    law_init_body_members(method, path, json_payload(body));
}

/// The request a client sends for `method` and `path` with this body: that method,
/// the client's base URL followed by the path, the client's bearer token, and this
/// body.
pub open spec fn sent_request(c: ClientView, method: Seq<char>, path: Seq<char>, body: BodyView, user_action: Option<
    Seq<char>,
>) -> RequestView {
    RequestView { method, url: c.base_url + path, bearer: c.auth_token, body, user_action }
}

/// A request that needs no user action is sent at once as it is, without a token;
/// one sent with an already obtained token carries exactly that token; submitting a
/// signed challenge is `POST /auth/action` with the identifier and the assertion.
pub proof fn law_requests_as_sent(
    c: ClientView,
    method: Seq<char>,
    path: Seq<char>,
    body: Option<Seq<char>>,
    has_signer: bool,
    token: Seq<char>,
    challenge_identifier: Seq<char>,
    a: AssertionView,
)
    ensures
        ({
            let b = match body {
                Some(t) => BodyView::Json(t),
                None => BodyView::Empty,
            };
            &&& spec_start_request(c, method, path, body, false, has_signer) == (
                ExchangeView::AwaitTarget,
                ActionView::Send(sent_request(c, method, path, b, None)),
            )
            &&& spec_start_with_user_action(c, method, path, body, token) == (
                ExchangeView::AwaitTarget,
                ActionView::Send(sent_request(c, method, path, b, Some(token))),
            )
        }),
        spec_start_completion(c, challenge_identifier, a) == (
            ExchangeView::AwaitComplete { target: None },
            ActionView::Send(
                sent_request(c, "POST"@, "/auth/action"@, BodyView::Json(complete_object(challenge_identifier, a)), None),
            ),
        ),
        spec_start_request(c, method, path, body, true, false) == (
            ExchangeView::Finished,
            ActionView::Finish(Err(ErrorView::SignerRequired)),
        ),
{
    law_complete_body_members(challenge_identifier, a);
}

/// An upload is sent as a multipart request to the client's base URL followed by
/// the path: its `data` part is the caller's object with the file's checksum, its
/// file part the file's bytes under the sanitized name. Without a user action it is
/// sent at once; with one, the challenge binds exactly that `data` part, and the
/// upload is what stays pending.
pub proof fn law_upload_as_sent(
    c: ClientView,
    method: Seq<char>,
    path: Seq<char>,
    fields: Seq<(Seq<char>, Seq<char>)>,
    file_name: Seq<char>,
    file: Seq<u8>,
    has_signer: bool,
)
    ensures
        ({
            let up = sent_request(
                c,
                method,
                path,
                BodyView::Multipart { data: spec_upload_data(fields, file), file_name: spec_upload_file_name(file_name), file },
                None,
            );
            &&& spec_start_upload(c, method, path, fields, file_name, file, false, has_signer) == (
                ExchangeView::AwaitTarget,
                ActionView::Send(up),
            )
            &&& spec_start_upload(c, method, path, fields, file_name, file, true, true) == (
                ExchangeView::AwaitInit { target: Some(up) },
                ActionView::Send(
                    sent_request(
                        c,
                        "POST"@,
                        "/auth/action/init"@,
                        BodyView::Json(init_object(method, path, spec_upload_data(fields, file))),
                        None,
                    ),
                ),
            )
        }),
{
    law_init_body_members(method, path, spec_upload_data(fields, file));
}

/// A reply with a status outside 2xx ends the exchange at whatever stage it comes,
/// with the API error it reports: the decoded error when the body is one, and
/// otherwise the status with the body's text.
pub proof fn law_error_reply_ends_exchange(c: ClientView, target: Option<RequestView>, r: ReplyView)
    requires
        !(200 <= r.status < 300),
    ensures
        ({
            let e = match r.api_error {
                Some(body) => ErrorView::Api { status: r.status, body },
                None => ErrorView::ApiRaw { status: r.status, raw: spec_utf8_lossy(r.body) },
            };
            let end = (ExchangeView::Finished, ActionView::Finish(Err(e)));
            &&& spec_step(c, ExchangeView::AwaitInit { target }, EventView::Replied(Ok(r))) == end
            &&& spec_step(c, ExchangeView::AwaitComplete { target }, EventView::Replied(Ok(r))) == end
            &&& spec_step(c, ExchangeView::AwaitTarget, EventView::Replied(Ok(r))) == end
        }),
{
}

} // verus!
