use dfns_sdk_rust::client::{
    handle_response, is_loopback_host, Client, HttpReply, HttpRequest, MultipartFile, Options, RequestBody, UrlParts,
};
use dfns_sdk_rust::error::{ApiError, Error};
use dfns_sdk_rust::exchange::{Action, Event, Exchange, Outcome};
use dfns_sdk_rust::json::JsonField;
use dfns_sdk_rust::signer::{CredentialAssertion, CredentialAssertionData, UserActionChallenge};

fn options(base_url: &str, auth_token: &str) -> Options {
    Options { base_url: base_url.to_string(), auth_token: auth_token.to_string(), http: None }
}

fn client() -> Client {
    match Client::new(options("http://127.0.0.1:8080", "test-token")) {
        Ok(c) => c,
        Err(e) => panic!("client: {:?}", e),
    }
}

fn reply(status: u16, body: &str) -> Event {
    Event::Replied(Ok(HttpReply { status, body: body.as_bytes().to_vec(), api_error: None }))
}

fn challenge() -> UserActionChallenge {
    UserActionChallenge {
        challenge: "dGVzdC1jaGFsbGVuZ2U".to_string(),
        challenge_identifier: "challenge-123".to_string(),
    }
}

fn assertion() -> CredentialAssertion {
    CredentialAssertion {
        kind: "Key".to_string(),
        credential_assertion: CredentialAssertionData {
            cred_id: "cred-1".to_string(),
            client_data: "Y2xpZW50LWRhdGE".to_string(),
            signature: "c2lnbmF0dXJl".to_string(),
        },
    }
}

fn sent(action: Action) -> HttpRequest {
    match action {
        Action::Send(r) => r,
        other => panic!("expected a request, got {:?}", other),
    }
}

fn json_text(r: &HttpRequest) -> String {
    match &r.body {
        RequestBody::Json(t) => t.clone(),
        other => panic!("expected a JSON body, got {:?}", other),
    }
}

#[test]
fn new_defaults_empty_base_url_to_https() {
    let c = Client::new(options("", "t"));
    assert!(c.is_ok());
    assert_eq!(c.ok().unwrap().base_url(), "https://api.dfns.io");
}

#[test]
fn new_rejects_external_http() {
    let res = Client::new(options("http://api.dfns.io", "t"));
    assert!(matches!(res, Err(Error::Config(_))));
}

#[test]
fn new_allows_loopback_http() {
    let c = Client::new(options("http://127.0.0.1:8080", "t"));
    assert!(c.is_ok());
}

#[test]
fn new_requires_auth_token() {
    let res = Client::new(options("https://api.dfns.io", ""));
    assert!(matches!(res, Err(Error::Config(_))));
}

#[test]
fn new_reports_each_configuration_error() {
    match Client::new(options("not a url", "t")) {
        Err(Error::Config(m)) => assert!(m.starts_with("invalid BaseURL: ")),
        _ => panic!("expected a configuration error"),
    }
    match Client::new(options("http://api.dfns.io", "t")) {
        Err(Error::Config(m)) => assert_eq!(m, "BaseURL must use https scheme (http allowed only for loopback)"),
        _ => panic!("expected a configuration error"),
    }
    match Client::new(options("https://api.dfns.io", "")) {
        Err(Error::Config(m)) => assert_eq!(m, "AuthToken is required"),
        _ => panic!("expected a configuration error"),
    }
    // The scheme is checked before the token.
    assert!(matches!(Client::new(options("http://example.com", "")), Err(Error::Config(m)) if m.contains("https")));
}

#[test]
fn new_accepts_loopback_names_only() {
    assert!(Client::new(options("http://localhost:3000", "t")).is_ok());
    assert!(Client::new(options("http://127.1.2.3", "t")).is_ok());
    assert!(Client::new(options("http://[::1]:8080", "t")).is_ok());
    assert!(Client::new(options("http://[0:0:0:0:0:0:0:1]/", "t")).is_ok());
    assert!(Client::new(options("http://[::2]:8080", "t")).is_err());
    assert!(Client::new(options("http://[::ffff:127.0.0.1]", "t")).is_err());
    assert!(Client::new(options("http://10.0.0.1", "t")).is_err());
    assert!(Client::new(options("http://localhost.example.com", "t")).is_err());
    assert!(Client::new(options("https://10.0.0.1", "t")).is_ok());
    // Only https, or plain http to a loopback host.
    assert!(matches!(Client::new(options("ftp://localhost", "t")), Err(Error::Config(_))));
    assert!(matches!(Client::new(options("ws://127.0.0.1", "t")), Err(Error::Config(_))));
    assert!(Client::new(options("https://localhost", "t")).is_ok());
}

fn parts(scheme: &str, host: Option<&str>, ipv6: Option<Vec<u8>>) -> UrlParts {
    UrlParts { scheme: scheme.to_string(), host: host.map(|h| h.to_string()), ipv6 }
}

#[test]
fn loopback_hosts() {
    let mut one = vec![0u8; 16];
    one[15] = 1;
    let mut two = vec![0u8; 16];
    two[15] = 2;
    assert!(is_loopback_host(&parts("http", Some("localhost"), None)));
    assert!(is_loopback_host(&parts("http", Some("127.0.0.1"), None)));
    assert!(is_loopback_host(&parts("http", Some("[::1]"), Some(one))));
    assert!(!is_loopback_host(&parts("http", Some("[::2]"), Some(two))));
    assert!(!is_loopback_host(&parts("http", Some("example.com"), None)));
    assert!(!is_loopback_host(&parts("file", None, None)));
}

#[test]
fn accept_checks_a_parsed_url() {
    let ok = Client::accept("http://localhost/".to_string(), Ok(parts("http", Some("localhost"), None)), "t".to_string(), None);
    assert_eq!(ok.ok().unwrap().base_url(), "http://localhost");
    let ftp = Client::accept("ftp://localhost".to_string(), Ok(parts("ftp", Some("localhost"), None)), "t".to_string(), None);
    assert!(matches!(ftp, Err(Error::Config(_))));
    let bad = Client::accept("x".to_string(), Err("relative URL without a base".to_string()), "t".to_string(), None);
    assert!(matches!(bad, Err(Error::Config(m)) if m == "invalid BaseURL: relative URL without a base"));
}

#[test]
fn new_trims_trailing_slashes() {
    let c = Client::new(options("https://api.dfns.io///", "t")).ok().unwrap();
    assert_eq!(c.base_url(), "https://api.dfns.io");
    assert_eq!(c.auth_token(), "t");
}

#[test]
fn requires_signature_no_signer() {
    let c = client();
    let (ex, action) = c.start_request("POST", "/test", None, true, false);
    assert!(matches!(ex, Exchange::Finished));
    assert!(matches!(action, Action::Finish(Err(Error::SignerRequired))));
}

#[test]
fn requires_signature_full_flow() {
    let c = client();
    let body = Some("{\"key\":\"value\"}".to_string());
    let (ex, action) = c.start_request("POST", "/test/endpoint?page=1", body, true, true);

    // The init challenge carries the canonical (query-free) path and the exact body.
    let init = sent(action);
    assert_eq!(init.method, "POST");
    assert_eq!(init.url, "http://127.0.0.1:8080/auth/action/init");
    assert_eq!(init.bearer, "test-token");
    assert!(init.user_action.is_none());
    assert_eq!(
        json_text(&init),
        "{\"userActionHttpMethod\":\"POST\",\"userActionHttpPath\":\"/test/endpoint\",\"userActionPayload\":\"{\\\"key\\\":\\\"value\\\"}\",\"userActionServerKind\":\"Api\"}"
    );

    let (ex, action) = c.step(ex, reply(200, "{\"challenge\":\"dGVzdC1jaGFsbGVuZ2U\",\"challengeIdentifier\":\"challenge-123\"}"));
    match action {
        Action::DecodeChallenge(b) => assert!(String::from_utf8(b).unwrap().contains("challenge-123")),
        other => panic!("expected a decode, got {:?}", other),
    }
    let (ex, action) = c.step(ex, Event::ChallengeDecoded(Ok(challenge())));
    match action {
        Action::Sign(ch) => assert_eq!(ch.challenge_identifier, "challenge-123"),
        other => panic!("expected a signature request, got {:?}", other),
    }
    let (ex, action) = c.step(ex, Event::Signed(Ok(assertion())));
    let complete = sent(action);
    assert_eq!(complete.url, "http://127.0.0.1:8080/auth/action");
    assert_eq!(
        json_text(&complete),
        "{\"challengeIdentifier\":\"challenge-123\",\"firstFactor\":{\"credentialAssertion\":{\"clientData\":\"Y2xpZW50LWRhdGE\",\"credId\":\"cred-1\",\"signature\":\"c2lnbmF0dXJl\"},\"kind\":\"Key\"}}"
    );
    let (ex, action) = c.step(ex, reply(200, "{\"userAction\":\"user-action-token-xyz\"}"));
    assert!(matches!(action, Action::DecodeUserAction(_)));
    let (ex, action) = c.step(ex, Event::UserActionDecoded(Ok("user-action-token-xyz".to_string())));

    // The real request carries the signed token, the query, and the very bytes signed.
    let target = sent(action);
    assert_eq!(target.method, "POST");
    assert_eq!(target.url, "http://127.0.0.1:8080/test/endpoint?page=1");
    assert_eq!(target.user_action.as_deref(), Some("user-action-token-xyz"));
    assert_eq!(json_text(&target), "{\"key\":\"value\"}");

    let (ex, action) = c.step(ex, reply(200, "{\"result\":\"ok\"}"));
    assert!(matches!(ex, Exchange::Finished));
    match action {
        Action::Finish(Ok(Outcome::Body(b))) => assert_eq!(b, b"{\"result\":\"ok\"}".to_vec()),
        other => panic!("expected the body, got {:?}", other),
    }
}

#[test]
fn requires_signature_signer_error() {
    let c = client();
    let (ex, _) = c.start_request("POST", "/test", None, true, true);
    let (ex, action) = c.step(ex, reply(200, r#"{"challenge":"dGVzdA","challengeIdentifier":"challenge-123"}"#));
    match action {
        Action::DecodeChallenge(bytes) => {
            assert_eq!(bytes, br#"{"challenge":"dGVzdA","challengeIdentifier":"challenge-123"}"#.to_vec())
        },
        other => panic!("expected the challenge bytes, got {:?}", other),
    }
    let (ex, _) = c.step(ex, Event::ChallengeDecoded(Ok(UserActionChallenge {
        challenge: "dGVzdA".to_string(),
        challenge_identifier: "challenge-123".to_string(),
    })));
    let (ex, action) = c.step(ex, Event::Signed(Err(Error::Signer("signing device unavailable".to_string()))));
    assert!(matches!(ex, Exchange::Finished));
    assert!(matches!(action, Action::Finish(Err(Error::Signer(_)))));
}

#[test]
fn requires_signature_challenge_failure() {
    let c = client();
    let (ex, _) = c.start_request("POST", "/test", None, true, true);
    let (ex, action) = c.step(ex, reply(500, "server error"));
    assert!(matches!(ex, Exchange::Finished));
    let err = match action {
        Action::Finish(Err(e)) => e,
        other => panic!("expected an error, got {:?}", other),
    };
    assert!(matches!(err, Error::Api { .. } | Error::ApiRaw { .. }));
    match err {
        Error::ApiRaw { status, raw } => {
            assert_eq!(status, 500);
            assert_eq!(raw, "server error");
        },
        _ => panic!("expected the raw body"),
    }
}

#[test]
fn unsigned_request_is_sent_at_once() {
    let c = client();
    let (ex, action) = c.start_request("GET", "/wallets?limit=2", None, false, false);
    let r = sent(action);
    assert!(matches!(ex, Exchange::AwaitTarget));
    assert_eq!(r.method, "GET");
    assert_eq!(r.url, "http://127.0.0.1:8080/wallets?limit=2");
    assert!(matches!(r.body, RequestBody::Empty));
    assert!(r.user_action.is_none());
    let (_, action) = c.step(ex, reply(204, ""));
    assert!(matches!(action, Action::Finish(Ok(Outcome::Body(b))) if b.is_empty()));
}

#[test]
fn challenge_only_and_completion_only() {
    let c = client();
    let (ex, action) = c.start_challenge("DELETE", "/keys/k-1?force=true", None);
    assert_eq!(
        json_text(&sent(action)),
        "{\"userActionHttpMethod\":\"DELETE\",\"userActionHttpPath\":\"/keys/k-1\",\"userActionPayload\":\"\",\"userActionServerKind\":\"Api\"}"
    );
    let (ex, _) = c.step(ex, reply(200, "{}"));
    let (_, action) = c.step(ex, Event::ChallengeDecoded(Ok(challenge())));
    assert!(matches!(action, Action::Finish(Ok(Outcome::Challenge(ch))) if ch.challenge_identifier == "challenge-123"));

    let (ex, action) = c.start_completion("challenge-123", &assertion());
    assert_eq!(sent(action).url, "http://127.0.0.1:8080/auth/action");
    let (ex, _) = c.step(ex, reply(200, "{}"));
    let (_, action) = c.step(ex, Event::UserActionDecoded(Ok("tok".to_string())));
    assert!(matches!(action, Action::Finish(Ok(Outcome::UserAction(t))) if t == "tok"));

    let (_, action) = c.start_with_user_action("POST", "/wallets", Some("{}".to_string()), "tok");
    let r = sent(action);
    assert_eq!(r.user_action.as_deref(), Some("tok"));
    assert_eq!(json_text(&r), "{}");
}

#[test]
fn undecodable_replies_end_with_serde_errors() {
    let c = client();
    let (ex, _) = c.start_challenge("POST", "/x", None);
    let (ex, _) = c.step(ex, reply(200, "not json"));
    let bad = serde_json::from_str::<serde_json::Value>("not json").unwrap_err();
    assert!(ex.accepts(&Event::ChallengeDecoded(Ok(challenge()))));
    assert!(!ex.accepts(&Event::UserActionDecoded(Ok("t".to_string()))));
    let (ex, action) = c.step(ex, Event::ChallengeDecoded(Err(bad)));
    assert!(matches!(ex, Exchange::Finished));
    assert!(matches!(action, Action::Finish(Err(Error::Serde(_)))));
}

fn upload_file(name: &str, bytes: &[u8]) -> MultipartFile {
    MultipartFile { file_name: name.to_string(), bytes: bytes.to_vec() }
}

fn multipart(r: &HttpRequest) -> (String, String, Vec<u8>) {
    match &r.body {
        RequestBody::Multipart { data, file_name, file } => (data.clone(), file_name.clone(), file.clone()),
        other => panic!("expected a multipart body, got {:?}", other),
    }
}

#[test]
fn multipart_success() {
    let c = client();
    let fields = vec![JsonField { key: "network".to_string(), value: "\"Eth\"".to_string() }];
    let file_bytes = b"hello-file-contents";
    let (_, action) = c.start_upload("POST", "/upload", &fields, upload_file("doc.pdf", file_bytes), false, false);
    let r = sent(action);
    assert_eq!(r.url, "http://127.0.0.1:8080/upload");
    let (data, file_name, file) = multipart(&r);
    let checksum = hex::encode(<sha2::Sha256 as sha2::Digest>::digest(file_bytes));
    assert!(data.contains("\"network\":\"Eth\""));
    assert!(data.contains(&format!("\"fileChecksum\":\"{}\"", checksum)));
    assert_eq!(data, format!("{{\"fileChecksum\":\"{}\",\"network\":\"Eth\"}}", checksum));
    assert_eq!(file_name, "doc.pdf");
    assert_eq!(file, file_bytes.to_vec());
}

#[test]
fn multipart_default_file_name() {
    let c = client();
    let (_, action) = c.start_upload("POST", "/upload", &Vec::new(), upload_file("", b"x"), false, false);
    let (_, file_name, _) = multipart(&sent(action));
    assert_eq!(file_name, "upload.bin");
}

#[test]
fn multipart_file_name_sanitized() {
    let c = client();
    let (_, action) = c.start_upload("POST", "/upload", &Vec::new(), upload_file("a\r\nb.bin", b"x"), false, false);
    let (_, file_name, _) = multipart(&sent(action));
    assert_eq!(file_name, "ab.bin");
    let (_, action) = c.start_upload("POST", "/upload", &Vec::new(), upload_file("\r\n", b"x"), false, false);
    let (_, file_name, _) = multipart(&sent(action));
    assert_eq!(file_name, "upload.bin");
}

#[test]
fn multipart_requires_signature_full_flow() {
    let c = client();
    let fields = vec![JsonField { key: "k".to_string(), value: "\"v\"".to_string() }];
    let (ex, action) = c.start_upload("POST", "/upload", &fields, upload_file("f.bin", b"file-bytes"), true, true);
    let init = sent(action);
    let (ex, _) = c.step(ex, reply(200, "{}"));
    let (ex, _) = c.step(ex, Event::ChallengeDecoded(Ok(challenge())));
    let (ex, _) = c.step(ex, Event::Signed(Ok(assertion())));
    let (ex, _) = c.step(ex, reply(200, "{}"));
    let (ex, action) = c.step(ex, Event::UserActionDecoded(Ok("user-action-token-xyz".to_string())));
    let target = sent(action);
    assert_eq!(target.user_action.as_deref(), Some("user-action-token-xyz"));
    let (data, file_name, file) = multipart(&target);
    assert_eq!(file_name, "f.bin");
    assert_eq!(file, b"file-bytes".to_vec());
    // The challenge binds the very data part that is uploaded.
    let quoted = serde_json::to_string(&data).unwrap();
    assert!(json_text(&init).contains(&format!("\"userActionPayload\":{}", quoted)));
    let (_, action) = c.step(ex, reply(200, "{\"result\":\"ok\"}"));
    assert!(matches!(action, Action::Finish(Ok(Outcome::Body(_)))));
}

#[test]
fn responses_by_status() {
    let ok = handle_response(HttpReply { status: 201, body: b"{\"id\":1}".to_vec(), api_error: None });
    assert_eq!(ok.ok().unwrap(), b"{\"id\":1}".to_vec());
    let api = handle_response(HttpReply {
        status: 404,
        body: b"{\"message\":\"not found\"}".to_vec(),
        api_error: Some(ApiError { message: "not found".to_string(), code: Some("E404".to_string()) }),
    });
    match api {
        Err(Error::Api { status, body }) => {
            assert_eq!(status, 404);
            assert_eq!(body.message, "not found");
            assert_eq!(body.code.as_deref(), Some("E404"));
        },
        _ => panic!("expected an API error"),
    }
    let raw = handle_response(HttpReply { status: 502, body: vec![b'b', b'a', b'd', 0xff], api_error: None });
    match raw {
        Err(Error::ApiRaw { status, raw }) => {
            assert_eq!(status, 502);
            assert_eq!(raw, "bad\u{fffd}");
        },
        _ => panic!("expected a raw API error"),
    }
    assert!(handle_response(HttpReply { status: 300, body: Vec::new(), api_error: None }).is_err());
    assert!(handle_response(HttpReply { status: 199, body: Vec::new(), api_error: None }).is_err());
    assert!(handle_response(HttpReply { status: 299, body: Vec::new(), api_error: None }).is_ok());
}
