//! Client configuration and the requests and replies the transport exchanges.

use vstd::prelude::*;

use crate::error::{ApiError, ApiErrorView, Error, ErrorView};
use crate::outside::{
    build_http_client, parse_url, spec_request_timeout, spec_url_parse, spec_utf8_lossy, utf8_lossy,
};
pub use crate::text::canonical_request_path;
use crate::text::{
    decimal_value, ipv4_dots, is_loopback_name, is_octet_text, spec_is_loopback_name, spec_trim_end_slashes,
    trim_end_slashes,
};

verus! {

/// A file part for multipart uploads.
#[derive(Debug, Clone)]
pub struct MultipartFile {
    pub file_name: String,
    pub bytes: Vec<u8>,
}

/// Configuration for the transport client: where the API is, the bearer token, and
/// the HTTP client to send with (a default one is built when none is given).
pub struct Options {
    pub base_url: String,
    pub auth_token: String,
    pub http: Option<reqwest::Client>,
}

/// The checked configuration of the transport, with its HTTP client.
pub struct Client {
    base_url: String,
    auth_token: String,
    http: reqwest::Client,
    /// The URL text that was parsed and accepted (before trailing `/` were removed).
    accepted_url: Ghost<Seq<char>>,
}

/// The request timeout of the default HTTP client, in seconds.
pub const DEFAULT_TIMEOUT_SECS: u64 = 30;

/// The content of a [`Client`]: its base URL (without trailing `/`) and token.
#[verifier::ext_equal]
pub struct ClientView {
    pub base_url: Seq<char>,
    pub auth_token: Seq<char>,
}

impl View for Client {
    type V = ClientView;

    closed spec fn view(&self) -> ClientView {
        ClientView { base_url: self.base_url@, auth_token: self.auth_token@ }
    }
}

/// What the configuration check reads of a parsed URL: its scheme, its host text
/// (`Url::host_str`), and the address of an IPv6 host (sixteen octets), if the host
/// is one.
#[derive(Debug)]
pub struct UrlParts {
    pub scheme: String,
    pub host: Option<String>,
    pub ipv6: Option<Vec<u8>>,
}

impl View for UrlParts {
    type V = (Seq<char>, Option<Seq<char>>, Option<Seq<u8>>);

    open spec fn view(&self) -> (Seq<char>, Option<Seq<char>>, Option<Seq<u8>>) {
        (
            self.scheme@,
            self.host.deep_view(),
            match self.ipv6 {
                Some(o) => Some(o@),
                None => None,
            },
        )
    }
}

/// The content of a parse outcome.
pub open spec fn parsed_view(p: Result<UrlParts, String>) -> Result<(Seq<char>, Option<Seq<char>>, Option<Seq<u8>>), Seq<char>> {
    match p {
        Ok(u) => Ok(u@),
        Err(m) => Err(m@),
    }
}

/// The base URL used when none is configured.
pub open spec fn default_base_url() -> Seq<char> {
    "https://api.dfns.io"@
}

/// The configured base URL, or the default one when it is empty.
pub open spec fn effective_base_url(base_url: Seq<char>) -> Seq<char> {
    if base_url.len() == 0 {
        default_base_url()
    } else {
        base_url
    }
}

/// The IPv6 loopback address `::1`, as octets.
pub open spec fn ipv6_loopback() -> Seq<u8> {
    Seq::new(16, |j: int| if j == 15 { 1u8 } else { 0u8 })
}

/// A loopback host: `localhost`, an IPv4 address in 127.0.0.0/8, or the IPv6
/// address `::1` (which `url` writes as `[::1]`).
pub open spec fn spec_is_loopback(u: (Seq<char>, Option<Seq<char>>, Option<Seq<u8>>)) -> bool {
    (u.1 matches Some(h) && spec_is_loopback_name(h)) || u.2 == Some(ipv6_loopback())
}

/// Whether a parsed URL may carry the bearer token: https, or plain http to a
/// loopback host.
pub open spec fn spec_transport_allowed(u: (Seq<char>, Option<Seq<char>>, Option<Seq<u8>>)) -> bool {
    u.0 == "https"@ || (u.0 == "http"@ && spec_is_loopback(u))
}

/// The outcome of the configuration check on a URL text, its parse outcome and a
/// token: the checked base URL and token, or the configuration error, checked in this
/// order: URL syntax, scheme, token.
pub open spec fn spec_accept(
    url: Seq<char>,
    parsed: Result<(Seq<char>, Option<Seq<char>>, Option<Seq<u8>>), Seq<char>>,
    auth_token: Seq<char>,
) -> Result<ClientView, ErrorView> {
    match parsed {
        Err(msg) => Err(ErrorView::Config("invalid BaseURL: "@ + msg)),
        Ok(u) => if !spec_transport_allowed(u) {
            Err(ErrorView::Config("BaseURL must use https scheme (http allowed only for loopback)"@))
        } else if auth_token.len() == 0 {
            Err(ErrorView::Config("AuthToken is required"@))
        } else {
            Ok(ClientView { base_url: spec_trim_end_slashes(url), auth_token })
        },
    }
}

/// The outcome of [`Client::new`] on a configured base URL and token.
pub open spec fn spec_new(base_url: Seq<char>, auth_token: Seq<char>) -> Result<ClientView, ErrorView> {
    spec_accept(effective_base_url(base_url), spec_url_parse(effective_base_url(base_url)), auth_token)
}

/// Whether plain http is allowed for the URL's host: `localhost`, an IPv4 address
/// in 127.0.0.0/8, or the IPv6 address `::1`.
pub fn is_loopback_host(url: &UrlParts) -> (res: bool)
    ensures
        res == spec_is_loopback(url@),
{
    let by_name = match &url.host {
        Some(h) => is_loopback_name(h.as_str()),
        None => false,
    };
    if by_name {
        return true;
    }
    match &url.ipv6 {
        Some(o) => is_ipv6_loopback(o),
        None => false,
    }
}

/// Whether the octets are those of the IPv6 address `::1`.
fn is_ipv6_loopback(o: &Vec<u8>) -> (res: bool)
    ensures
        res == (o@ == ipv6_loopback()),
{
    if o.len() != 16 {
        assert(o@ != ipv6_loopback());
        return false;
    }
    let mut i: usize = 0;
    while i < 15
        invariant
            o@.len() == 16,
            i <= 15,
            forall|j: int| 0 <= j < i ==> o@[j] == 0u8,
        decreases 15 - i,
    {
        if o[i] != 0 {
            assert(o@[i as int] != ipv6_loopback()[i as int]);
            return false;
        }
        i = i + 1;
    }
    if o[15] != 1 {
        assert(o@[15] != ipv6_loopback()[15]);
        return false;
    }
    assert(o@ =~= ipv6_loopback());
    true
}

/// A configuration is accepted only when the token is not empty and the URL uses
/// https, or plain http to a loopback host, so the bearer token never travels in
/// cleartext beyond the machine; the accepted base URL ends in no `/`, and an empty
/// base URL stands for `https://api.dfns.io`.
pub proof fn law_new_accepts_only_safe_transport(base_url: Seq<char>, auth_token: Seq<char>)
    ensures
        spec_new(base_url, auth_token) matches Ok(c) ==> {
            &&& c.auth_token == auth_token && auth_token.len() > 0
            &&& spec_url_parse(effective_base_url(base_url)) matches Ok(u) && (u.0 == "https"@ || (u.0
                == "http"@ && spec_is_loopback(u)))
            &&& c.base_url == spec_trim_end_slashes(effective_base_url(base_url))
            &&& spec_trim_end_slashes(c.base_url) == c.base_url
        },
        base_url.len() == 0 ==> effective_base_url(base_url) == default_base_url(),
{
    crate::text::law_trim_end_slashes(effective_base_url(base_url));
}

/// The configuration check on a parsed base URL: a URL `url` cannot parse is
/// refused with its parse error; one that may not carry the token is refused for its
/// scheme; an empty token is refused; otherwise the client has the base URL without
/// its trailing `/` and the token. An empty base URL stands for
/// `https://api.dfns.io`.
pub proof fn law_configuration(
    url: Seq<char>,
    parsed: Result<(Seq<char>, Option<Seq<char>>, Option<Seq<u8>>), Seq<char>>,
    auth_token: Seq<char>,
    base_url: Seq<char>,
)
    ensures
        parsed matches Err(msg) ==> spec_accept(url, parsed, auth_token) == Err::<ClientView, ErrorView>(
            ErrorView::Config("invalid BaseURL: "@ + msg),
        ),
        parsed matches Ok(u) && !spec_transport_allowed(u) ==> spec_accept(url, parsed, auth_token) == Err::<
            ClientView,
            ErrorView,
        >(ErrorView::Config("BaseURL must use https scheme (http allowed only for loopback)"@)),
        parsed matches Ok(u) && spec_transport_allowed(u) && auth_token.len() == 0 ==> spec_accept(
            url,
            parsed,
            auth_token,
        ) == Err::<ClientView, ErrorView>(ErrorView::Config("AuthToken is required"@)),
        parsed matches Ok(u) && spec_transport_allowed(u) && auth_token.len() > 0 ==> spec_accept(url, parsed, auth_token)
            == Ok::<ClientView, ErrorView>(ClientView { base_url: spec_trim_end_slashes(url), auth_token }),
        base_url.len() == 0 ==> effective_base_url(base_url) == "https://api.dfns.io"@,
        base_url.len() > 0 ==> effective_base_url(base_url) == base_url,
{
}

/// The IPv6 address `::1`, octet by octet.
pub open spec fn ipv6_one() -> Seq<u8> {
    seq![0u8, 0u8, 0u8, 0u8, 0u8, 0u8, 0u8, 0u8, 0u8, 0u8, 0u8, 0u8, 0u8, 0u8, 0u8, 1u8]
}

/// Which parsed URLs may carry the bearer token: every https URL, and a plain http
/// URL exactly when its host is `localhost`, a dotted-decimal IPv4 address whose
/// first octet is 127 (`127.b.c.d`), or the IPv6 address `::1`. No other scheme and
/// no other host is allowed.
#[verifier::spinoff_prover]
#[verifier::rlimit(50)]
pub proof fn law_transport_hosts(
    u: (Seq<char>, Option<Seq<char>>, Option<Seq<u8>>),
    b: Seq<char>,
    c: Seq<char>,
    d: Seq<char>,
)
    ensures
        spec_transport_allowed(u) ==> u.0 == "https"@ || (u.0 == "http"@ && {
            ||| u.1 == Some("localhost"@)
            ||| u.1 matches Some(h) && exists|x: Seq<char>, y: Seq<char>, z: Seq<char>|
                #![trigger is_octet_text(x), is_octet_text(y), is_octet_text(z)]
                is_octet_text(x) && is_octet_text(y) && is_octet_text(z) && h == "127."@ + x + "."@ + y + "."@ + z
            ||| u.2 == Some(ipv6_one())
        }),
        u.0 == "https"@ ==> spec_transport_allowed(u),
        u.0 == "http"@ && u.1 == Some("localhost"@) ==> spec_transport_allowed(u),
        u.0 == "http"@ && u.2 == Some(ipv6_one()) ==> spec_transport_allowed(u),
        u.0 == "http"@ && is_octet_text(b) && is_octet_text(c) && is_octet_text(d) && u.1 == Some(
            "127."@ + b + "."@ + c + "."@ + d,
        ) ==> spec_transport_allowed(u),
{
    reveal_strlit("localhost");
    reveal_strlit("http");
    reveal_strlit("https");
    assert(ipv6_loopback() =~= ipv6_one());
    assert("localhost"@ =~= seq!['l', 'o', 'c', 'a', 'l', 'h', 'o', 's', 't']);
    if u.0 == "http"@ && is_octet_text(b) && is_octet_text(c) && is_octet_text(d) && u.1 == Some(
        "127."@ + b + "."@ + c + "."@ + d,
    ) {
        lemma_ipv4_loopback_form(b, c, d);
    }
    if spec_transport_allowed(u) && u.0 != "https"@ {
        if let Some(h) = u.1 {
            if crate::text::is_ipv4_loopback_text(h) {
                lemma_ipv4_loopback_parts(h);
            }
        }
    }
}

/// The text `127` is one part of a dotted-decimal IPv4 address.
proof fn lemma_seven_octet()
    ensures
        is_octet_text(seq!['1', '2', '7']),
{
    let seven: Seq<char> = seq!['1', '2', '7'];
    assert(seven.drop_last() =~= seq!['1', '2']);
    assert(seven.drop_last().drop_last() =~= seq!['1']);
    assert(seven.drop_last().drop_last().drop_last() =~= Seq::<char>::empty());
    reveal_with_fuel(decimal_value, 4);
}

/// `127.b.c.d` is a loopback address text when `b`, `c` and `d` are octets.
#[verifier::spinoff_prover]
#[verifier::rlimit(50)]
proof fn lemma_ipv4_loopback_form(b: Seq<char>, c: Seq<char>, d: Seq<char>)
    requires
        is_octet_text(b),
        is_octet_text(c),
        is_octet_text(d),
    ensures
        crate::text::is_ipv4_loopback_text("127."@ + b + "."@ + c + "."@ + d),
{
    reveal_strlit("127.");
    reveal_strlit(".");
    lemma_seven_octet();
    let h = "127."@ + b + "."@ + c + "."@ + d;
    let i: int = 3;
    let j: int = 4 + b.len() as int;
    let k: int = j + 1 + c.len() as int;
    assert(h.subrange(0, i) =~= seq!['1', '2', '7']);
    assert(h.subrange(i + 1, j) =~= b);
    assert(h.subrange(j + 1, k) =~= c);
    assert(h.subrange(k + 1, h.len() as int) =~= d);
    assert(h[i] == '.' && h[j] == '.' && h[k] == '.');
    assert(ipv4_dots(h, i, j, k));
}

/// A loopback address text is `127.x.y.z` for three octets `x`, `y`, `z`.
#[verifier::spinoff_prover]
#[verifier::rlimit(50)]
proof fn lemma_ipv4_loopback_parts(h: Seq<char>)
    requires
        crate::text::is_ipv4_loopback_text(h),
    ensures
        exists|x: Seq<char>, y: Seq<char>, z: Seq<char>|
            #![trigger is_octet_text(x), is_octet_text(y), is_octet_text(z)]
            is_octet_text(x) && is_octet_text(y) && is_octet_text(z) && h == "127."@ + x + "."@ + y + "."@ + z,
{
    reveal_strlit("127.");
    reveal_strlit(".");
    let (i, j, k) = choose|i: int, j: int, k: int| #![trigger ipv4_dots(h, i, j, k)]
        ipv4_dots(h, i, j, k) && h.subrange(0, i) == seq!['1', '2', '7'];
    assert(h.subrange(0, i).len() == 3);
    let x = h.subrange(i + 1, j);
    let y = h.subrange(j + 1, k);
    let z = h.subrange(k + 1, h.len() as int);
    assert(h =~= "127."@ + x + "."@ + y + "."@ + z) by {
        assert(h.subrange(0, i) =~= seq!['1', '2', '7']);
        assert(h[0] == '1' && h[1] == '2' && h[2] == '7');
    }
    assert(is_octet_text(x) && is_octet_text(y) && is_octet_text(z));
}

impl Client {
    /// Every client has a token, and a base URL without trailing `/` that came from
    /// a URL text which `url` parses and which passed the scheme check.
    #[verifier::type_invariant]
    closed spec fn wf(self) -> bool {
        &&& self.auth_token@.len() > 0
        &&& spec_trim_end_slashes(self.base_url@) == self.base_url@
        &&& spec_trim_end_slashes(self.accepted_url@) == self.base_url@
        &&& spec_url_parse(self.accepted_url@) matches Ok(u) && spec_transport_allowed(u)
    }

    /// The URL text that was parsed and accepted when the client was made.
    pub closed spec fn accepted_url(&self) -> Seq<char> {
        self.accepted_url@
    }

    /// Checks a configuration whose base URL text `url` has been parsed into
    /// `parsed`: the URL must parse and use https, or plain http to a loopback host
    /// (so the bearer token never crosses the wire in cleartext); the token must not
    /// be empty. Trailing `/` are removed from the base URL. Without an HTTP client,
    /// one with a 30 s timeout is built; a failure to build it is a `Transport` error.
    pub fn accept(url: String, parsed: Result<UrlParts, String>, auth_token: String, http: Option<reqwest::Client>) -> (res: Result<Client, Error>)
        requires
            parsed_view(parsed) == spec_url_parse(url@),
        ensures
            match spec_accept(url@, parsed_view(parsed), auth_token@) {
                Err(e) => res matches Err(r) && r@ == e,
                Ok(v) => match res {
                    Ok(c) => c@ == v,
                    Err(r) => http is None && r is Transport,
                },
            },
            res matches Ok(c) ==> {
                &&& c.accepted_url() == url@
                &&& http matches Some(h) ==> c.http_client() == h
                &&& http is None ==> spec_request_timeout(c.http_client()) == Some(DEFAULT_TIMEOUT_SECS)
            },
    {
        match parsed {
            Err(msg) => {
                let mut text = "invalid BaseURL: ".to_owned();
                text.append(msg.as_str());
                Err(Error::Config(text))
            },
            Ok(u) => {
                let https = "https".to_owned();
                let plain = "http".to_owned();
                let allowed = u.scheme == https || (u.scheme == plain && is_loopback_host(&u));
                if !allowed {
                    return Err(
                        Error::Config(
                            "BaseURL must use https scheme (http allowed only for loopback)".to_owned(),
                        ),
                    );
                }
                if auth_token.as_str().is_empty() {
                    return Err(Error::Config("AuthToken is required".to_owned()));
                }
                let http = match http {
                    Some(http) => http,
                    None => match build_http_client(DEFAULT_TIMEOUT_SECS) {
                        Ok(http) => http,
                        Err(e) => return Err(Error::Transport(e)),
                    },
                };
                let trimmed = trim_end_slashes(url.as_str());
                proof {
                    crate::text::law_trim_end_slashes(url@);
                }
                Ok(
                    Client {
                        base_url: trimmed,
                        auth_token,
                        http,
                        accepted_url: Ghost(url@),
                    },
                )
            },
        }
    }

    /// Checks the configuration: an empty base URL stands for `https://api.dfns.io`;
    /// the URL is parsed with `url` and checked by [`Client::accept`].
    pub fn new(opts: Options) -> (res: Result<Client, Error>)
        ensures
            match spec_new(opts.base_url@, opts.auth_token@) {
                Err(e) => res matches Err(r) && r@ == e,
                Ok(v) => match res {
                    Ok(c) => c@ == v,
                    Err(r) => opts.http is None && r is Transport,
                },
            },
            res matches Ok(c) ==> {
                &&& c.accepted_url() == effective_base_url(opts.base_url@)
                &&& opts.http matches Some(h) ==> c.http_client() == h
                &&& opts.http is None ==> spec_request_timeout(c.http_client()) == Some(DEFAULT_TIMEOUT_SECS)
            },
    {
        let base_url = if opts.base_url.as_str().is_empty() {
            "https://api.dfns.io".to_owned()
        } else {
            opts.base_url
        };
        let parsed = parse_url(base_url.as_str());
        Client::accept(base_url, parsed, opts.auth_token, opts.http)
    }

    /// The base URL, without trailing `/`.
    pub fn base_url(&self) -> (res: &str)
        ensures
            res@ == self@.base_url,
            spec_trim_end_slashes(res@) == res@,
            spec_trim_end_slashes(self.accepted_url()) == res@,
            spec_url_parse(self.accepted_url()) matches Ok(u) && spec_transport_allowed(u),
    {
        proof {
            use_type_invariant(self);
        }
        self.base_url.as_str()
    }

    /// The HTTP client requests are sent with: the one given in the options, or
    /// the default one built by [`Client::new`].
    pub closed spec fn http_client(&self) -> reqwest::Client {
        self.http
    }

    /// The HTTP client requests are sent with.
    pub fn http(&self) -> (res: &reqwest::Client)
        ensures
            *res == self.http_client(),
    {
        &self.http
    }

    /// The bearer token, never empty.
    pub fn auth_token(&self) -> (res: &str)
        ensures
            res@ == self@.auth_token,
            res@.len() > 0,
    {
        proof {
            use_type_invariant(self);
        }
        self.auth_token.as_str()
    }
}


// ---------------------------------------------------------------------------
// Requests and replies

/// What a request carries.
#[derive(Debug)]
pub enum RequestBody {
    /// No body.
    Empty,
    /// A JSON text, sent as `application/json`.
    Json(String),
    /// A `multipart/form-data` upload: the `data` text part and the `file` part.
    Multipart { data: String, file_name: String, file: Vec<u8> },
}

/// The content of a [`RequestBody`].
#[verifier::ext_equal]
pub enum BodyView {
    Empty,
    Json(Seq<char>),
    Multipart { data: Seq<char>, file_name: Seq<char>, file: Seq<u8> },
}

impl View for RequestBody {
    type V = BodyView;

    open spec fn view(&self) -> BodyView {
        match self {
            RequestBody::Empty => BodyView::Empty,
            RequestBody::Json(t) => BodyView::Json(t@),
            RequestBody::Multipart { data, file_name, file } => BodyView::Multipart {
                data: data@,
                file_name: file_name@,
                file: file@,
            },
        }
    }
}

/// An HTTP request for the transport to perform: method, absolute URL, bearer token,
/// body, and the user-action token sent as `X-DFNS-USERACTION`, if any.
#[derive(Debug)]
pub struct HttpRequest {
    pub method: String,
    pub url: String,
    pub bearer: String,
    pub body: RequestBody,
    pub user_action: Option<String>,
}

/// The content of an [`HttpRequest`].
#[verifier::ext_equal]
pub struct RequestView {
    pub method: Seq<char>,
    pub url: Seq<char>,
    pub bearer: Seq<char>,
    pub body: BodyView,
    pub user_action: Option<Seq<char>>,
}

impl View for HttpRequest {
    type V = RequestView;

    open spec fn view(&self) -> RequestView {
        RequestView {
            method: self.method@,
            url: self.url@,
            bearer: self.bearer@,
            body: self.body@,
            user_action: self.user_action.deep_view(),
        }
    }
}

/// An HTTP reply as the transport received it: the status, the body, and the body
/// decoded as an [`ApiError`] when it decodes as one.
#[derive(Debug)]
pub struct HttpReply {
    pub status: u16,
    pub body: Vec<u8>,
    pub api_error: Option<ApiError>,
}

/// The content of an [`HttpReply`].
#[verifier::ext_equal]
pub struct ReplyView {
    pub status: u16,
    pub body: Seq<u8>,
    pub api_error: Option<ApiErrorView>,
}

impl View for HttpReply {
    type V = ReplyView;

    open spec fn view(&self) -> ReplyView {
        ReplyView {
            status: self.status,
            body: self.body@,
            api_error: match self.api_error {
                Some(e) => Some(e@),
                None => None,
            },
        }
    }
}

/// A 2xx status.
pub open spec fn is_success(status: u16) -> bool {
    200 <= status < 300
}

/// What a reply means: the body on a 2xx status; otherwise the decoded API error,
/// or, when the body is no API error, the body's text.
pub open spec fn spec_handle_response(r: ReplyView) -> Result<Seq<u8>, ErrorView> {
    if is_success(r.status) {
        Ok(r.body)
    } else {
        match r.api_error {
            Some(body) => Err(ErrorView::Api { status: r.status, body }),
            None => Err(ErrorView::ApiRaw { status: r.status, raw: spec_utf8_lossy(r.body) }),
        }
    }
}

/// The content of a body-or-error result.
pub open spec fn bytes_result_view(r: Result<Vec<u8>, Error>) -> Result<Seq<u8>, ErrorView> {
    match r {
        Ok(b) => Ok(b@),
        Err(e) => Err(e@),
    }
}

/// Turns a reply into its body or the error it reports.
pub fn handle_response(reply: HttpReply) -> (res: Result<Vec<u8>, Error>)
    ensures
        bytes_result_view(res) == spec_handle_response(reply@),
        !is_success(reply.status) && reply.api_error is None && vstd::utf8::valid_utf8(reply.body@)
            ==> (res matches Err(Error::ApiRaw { raw, .. }) && raw@ == vstd::utf8::decode_utf8(reply.body@)),
{
    if 200 <= reply.status && reply.status < 300 {
        return Ok(reply.body);
    }
    match reply.api_error {
        Some(body) => Err(Error::Api { status: reply.status, body }),
        None => Err(Error::ApiRaw { status: reply.status, raw: utf8_lossy(reply.body.as_slice()) }),
    }
}

} // verus!
