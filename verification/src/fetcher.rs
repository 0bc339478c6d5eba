//! The guarded fetcher: which remote images may be fetched, over which
//! egress path, and how much of an answer is accepted. The network itself is
//! the caller's: the fetcher says what to request and judges what comes back.

use crate::error::Error;
use crate::text::text_of;
use hyper::http::uri::InvalidUri;
use hyper::Uri;
use vstd::prelude::*;
use vstd::string::StringExecFns;

verus! {

/// `http::uri::InvalidUri`: a failure to parse a URI, opaque to the proofs.
#[verifier::external_type_specification]
#[verifier::external_body]
pub struct ExInvalidUri(InvalidUri);

/// What parsing a text as a URI finds: `None` if the text is no URI, else the
/// host of the URI, if it names one.
pub uninterp spec fn parsed_host(url: Seq<char>) -> Option<Option<Seq<char>>>;

/// The plain content of a parsing result.
pub open spec fn host_found(parsed: Result<Option<String>, InvalidUri>) -> Option<
    Option<Seq<char>>,
> {
    match parsed {
        Ok(Some(host)) => Some(Some(host@)),
        Ok(None) => Some(None),
        Err(_) => None,
    }
}

/// `Uri::from_str`, then `Uri::host`: parses the text as a URI and copies out
/// the host, if the URI has one. The outcome depends on the text alone.
#[verifier::external_body]
fn parse_host(url: &str) -> (parsed: Result<Option<String>, InvalidUri>)
    ensures
        host_found(parsed) == parsed_host(url@),
{
    <Uri as std::str::FromStr>::from_str(url).map(|uri| uri.host().map(String::from))
}

/// `to_string` of `InvalidUri`: the message of a URI parsing failure, of
/// which nothing is claimed.
#[verifier::external_body]
fn invalid_uri_text(failure: &InvalidUri) -> (text: String) {
    failure.to_string()
}

/// The hosts that are trusted unless others are configured.
pub open spec fn default_hosts() -> Seq<Seq<char>> {
    seq!["idlerpg.xyz"@, "i.imgur.com"@, "i.postimg.cc"@]
}

/// Largest payload that is accepted unless another ceiling is configured:
/// 3 MiB.
pub const DEFAULT_MAX_BYTES: u64 = 3145728;

/// Time granted to a fetch unless another is configured, in milliseconds.
pub const DEFAULT_TIMEOUT_MS: u64 = 5000;

/// The upstream proxy of forced-proxy mode and the credentials for it.
#[derive(Debug, Clone, PartialEq, Eq)]
pub struct ProxyRoute {
    pub url: String,
    pub username: String,
    pub password: String,
}

/// Mathematical model of a proxy route.
pub struct ProxyTexts {
    pub url: Seq<char>,
    pub username: Seq<char>,
    pub password: Seq<char>,
}

impl View for ProxyRoute {
    type V = ProxyTexts;

    open spec fn view(&self) -> ProxyTexts {
        ProxyTexts { url: self.url@, username: self.username@, password: self.password@ }
    }
}

/// The texts of an optional proxy route.
pub open spec fn proxy_of(route: Option<ProxyRoute>) -> Option<ProxyTexts> {
    match route {
        Some(r) => Some(r@),
        None => None,
    }
}

/// The texts of a list of strings.
pub open spec fn texts_of(list: Seq<String>) -> Seq<Seq<char>> {
    list.map_values(|s: String| s@)
}

/// Mathematical model of a fetcher's configuration.
pub struct FetcherConfig {
    /// The trusted hosts of direct mode.
    pub allowed: Seq<Seq<char>>,
    /// The proxy of forced-proxy mode; `None` in direct mode.
    pub proxy: Option<ProxyTexts>,
    /// Pre-shared token to send along in an authorization header.
    pub authorization: Option<Seq<char>>,
    /// Ceiling on the size of a payload.
    pub max_bytes: u64,
    /// Time granted to a fetch, in milliseconds.
    pub timeout_ms: u64,
}

/// Mathematical model of a request that the caller is to send.
pub struct Request {
    pub url: Seq<char>,
    pub proxy: Option<ProxyTexts>,
    pub authorization: Option<Seq<char>>,
    pub max_bytes: u64,
    pub timeout_ms: u64,
}

impl FetcherConfig {
    /// Whether a URI with this host may be fetched. In direct mode the host
    /// must be on the allowlist; in forced-proxy mode everything goes to the
    /// proxy, which decides.
    pub open spec fn admits(self, host: Option<Seq<char>>) -> bool {
        self.proxy is Some || (host matches Some(h) && self.allowed.contains(h))
    }

    /// The request for an admitted URL.
    pub open spec fn request(self, url: Seq<char>) -> Request {
        Request {
            url,
            proxy: self.proxy,
            authorization: self.authorization,
            max_bytes: self.max_bytes,
            timeout_ms: self.timeout_ms,
        }
    }

    /// How a fetch of `url` starts, given what parsing `url` finds: with a
    /// request, or with the failure that ends it before any connection.
    pub open spec fn start(self, url: Seq<char>, parsed: Option<Option<Seq<char>>>) -> Result<
        Request,
        FetchFailure,
    > {
        match parsed {
            None => Err(FetchFailure::InvalidUri),
            Some(host) => if self.admits(host) {
                Ok(self.request(url))
            } else {
                Err(FetchFailure::InvalidImageHost)
            },
        }
    }
}

/// The kinds of failure of a fetch.
pub enum FetchFailure {
    InvalidUri,
    InvalidImageHost,
    Ratelimited,
    PayloadTooBig,
    Transport,
}

/// The kind of failure that an error of the fetcher stands for.
pub open spec fn failure_of(e: Error) -> Option<FetchFailure> {
    match e {
        Error::InvalidUri(_) => Some(FetchFailure::InvalidUri),
        Error::InvalidImageHost => Some(FetchFailure::InvalidImageHost),
        Error::Ratelimited => Some(FetchFailure::Ratelimited),
        Error::PayloadTooBig => Some(FetchFailure::PayloadTooBig),
        Error::Hyper(_) => Some(FetchFailure::Transport),
        _ => None,
    }
}

/// A fetcher: a fixed egress configuration.
#[derive(Debug, Clone)]
pub struct Fetcher {
    allowed: Vec<String>,
    proxy: Option<ProxyRoute>,
    authorization: Option<String>,
    max_bytes: u64,
    timeout_ms: u64,
}

impl View for Fetcher {
    type V = FetcherConfig;

    closed spec fn view(&self) -> FetcherConfig {
        FetcherConfig {
            allowed: texts_of(self.allowed@),
            proxy: proxy_of(self.proxy),
            authorization: text_of(self.authorization),
            max_bytes: self.max_bytes,
            timeout_ms: self.timeout_ms,
        }
    }
}

/// A request that is ready to be sent: the first step of a fetch.
#[derive(Debug, Clone, PartialEq, Eq)]
pub struct Pending {
    /// The URL to fetch.
    pub url: String,
    /// The proxy to send the request through, in forced-proxy mode.
    pub proxy: Option<ProxyRoute>,
    /// Pre-shared token for the authorization header, if one is configured.
    pub authorization: Option<String>,
    /// Ceiling on the size of the payload.
    pub max_bytes: u64,
    /// Time granted to the whole fetch, in milliseconds.
    pub timeout_ms: u64,
}

impl View for Pending {
    type V = Request;

    open spec fn view(&self) -> Request {
        Request {
            url: self.url@,
            proxy: proxy_of(self.proxy),
            authorization: text_of(self.authorization),
            max_bytes: self.max_bytes,
            timeout_ms: self.timeout_ms,
        }
    }
}

impl Default for Fetcher {
    fn default() -> (fetcher: Fetcher)
        ensures
            fetcher@ == (FetcherConfig {
                allowed: default_hosts(),
                proxy: None,
                authorization: None,
                max_bytes: DEFAULT_MAX_BYTES,
                timeout_ms: DEFAULT_TIMEOUT_MS,
            }),
    {
        Fetcher::new()
    }
}

fn copy_text(text: &Option<String>) -> (copy: Option<String>)
    ensures
        text_of(copy) == text_of(*text),
{
    match text {
        Some(t) => Some(t.clone()),
        None => None,
    }
}

fn copy_route(route: &Option<ProxyRoute>) -> (copy: Option<ProxyRoute>)
    ensures
        proxy_of(copy) == proxy_of(*route),
{
    match route {
        Some(r) => Some(
            ProxyRoute {
                url: r.url.clone(),
                username: r.username.clone(),
                password: r.password.clone(),
            },
        ),
        None => None,
    }
}

impl Fetcher {
    /// A fetcher in direct mode that trusts the default hosts, with the
    /// default ceiling and timeout.
    pub fn new() -> (fetcher: Fetcher)
        ensures
            fetcher@ == (FetcherConfig {
                allowed: default_hosts(),
                proxy: None,
                authorization: None,
                max_bytes: DEFAULT_MAX_BYTES,
                timeout_ms: DEFAULT_TIMEOUT_MS,
            }),
    {
        let mut allowed: Vec<String> = Vec::new();
        allowed.push(String::from_str("idlerpg.xyz"));
        allowed.push(String::from_str("i.imgur.com"));
        allowed.push(String::from_str("i.postimg.cc"));
        assert(texts_of(allowed@) =~= default_hosts());
        Fetcher {
            allowed,
            proxy: None,
            authorization: None,
            max_bytes: DEFAULT_MAX_BYTES,
            timeout_ms: DEFAULT_TIMEOUT_MS,
        }
    }

    /// A fetcher in direct mode that trusts the given hosts.
    pub fn direct(allowed: Vec<String>) -> (fetcher: Fetcher)
        ensures
            fetcher@ == (FetcherConfig {
                allowed: texts_of(allowed@),
                proxy: None,
                authorization: None,
                max_bytes: DEFAULT_MAX_BYTES,
                timeout_ms: DEFAULT_TIMEOUT_MS,
            }),
    {
        Fetcher {
            allowed,
            proxy: None,
            authorization: None,
            max_bytes: DEFAULT_MAX_BYTES,
            timeout_ms: DEFAULT_TIMEOUT_MS,
        }
    }

    /// A fetcher in forced-proxy mode: every request goes through `route`.
    pub fn forced_proxy(route: ProxyRoute) -> (fetcher: Fetcher)
        ensures
            fetcher@ == (FetcherConfig {
                allowed: Seq::empty(),
                proxy: Some(route@),
                authorization: None,
                max_bytes: DEFAULT_MAX_BYTES,
                timeout_ms: DEFAULT_TIMEOUT_MS,
            }),
    {
        let allowed: Vec<String> = Vec::new();
        assert(texts_of(allowed@) =~= Seq::empty());
        Fetcher {
            allowed,
            proxy: Some(route),
            authorization: None,
            max_bytes: DEFAULT_MAX_BYTES,
            timeout_ms: DEFAULT_TIMEOUT_MS,
        }
    }

    /// The same fetcher with another ceiling on the size of a payload.
    pub fn with_max_bytes(self, max_bytes: u64) -> (fetcher: Fetcher)
        ensures
            fetcher@ == (FetcherConfig { max_bytes, ..self@ }),
    {
        Fetcher { max_bytes, ..self }
    }

    /// The same fetcher with another time granted to a fetch, in
    /// milliseconds.
    pub fn with_timeout(self, timeout_ms: u64) -> (fetcher: Fetcher)
        ensures
            fetcher@ == (FetcherConfig { timeout_ms, ..self@ }),
    {
        Fetcher { timeout_ms, ..self }
    }

    /// The same fetcher, which sends `token` along in an authorization
    /// header.
    pub fn with_authorization(self, token: String) -> (fetcher: Fetcher)
        ensures
            fetcher@ == (FetcherConfig { authorization: Some(token@), ..self@ }),
    {
        Fetcher { authorization: Some(token), ..self }
    }

    /// Whether a URI with this host may be fetched.
    pub fn admits(&self, host: &Option<String>) -> (yes: bool)
        ensures
            yes == self@.admits(text_of(*host)),
    {
        if self.proxy.is_some() {
            return true;
        }
        match host {
            None => false,
            Some(h) => {
                let mut i: usize = 0;
                while i < self.allowed.len()
                    invariant
                        i <= self.allowed@.len(),
                        text_of(*host) == Some(h@),
                        forall|j: int| 0 <= j < i ==> texts_of(self.allowed@)[j] != h@,
                    decreases self.allowed@.len() - i,
                {
                    if self.allowed[i] == *h {
                        assert(texts_of(self.allowed@)[i as int] == h@);
                        assert(texts_of(self.allowed@).contains(h@));
                        return true;
                    }
                    i = i + 1;
                }
                false
            },
        }
    }

    /// Starts a fetch, given what parsing `url` found. Nothing has been
    /// connected to when this fails.
    pub fn start(&self, url: &str, parsed: Result<Option<String>, InvalidUri>) -> (step: Result<
        Pending,
        Error,
    >)
        ensures
            step matches Ok(pending) ==> self@.start(url@, host_found(parsed)) == Ok::<
                Request,
                FetchFailure,
            >(pending@),
            step matches Err(e) ==> failure_of(e) is Some && self@.start(url@, host_found(parsed))
                == Err::<Request, FetchFailure>(failure_of(e)->0),
    {
        match parsed {
            Err(failure) => Err(Error::InvalidUri(invalid_uri_text(&failure))),
            Ok(host) => {
                if self.admits(&host) {
                    Ok(
                        Pending {
                            url: String::from_str(url),
                            proxy: copy_route(&self.proxy),
                            authorization: copy_text(&self.authorization),
                            max_bytes: self.max_bytes,
                            timeout_ms: self.timeout_ms,
                        },
                    )
                } else {
                    Err(Error::InvalidImageHost)
                }
            },
        }
    }

    /// Starts a fetch of `url`: parses it and checks its host. On success the
    /// caller is to send the request that is returned; on failure nothing
    /// has been connected to.
    pub fn fetch(&self, url: &str) -> (step: Result<Pending, Error>)
        ensures
            step matches Ok(pending) ==> self@.start(url@, parsed_host(url@)) == Ok::<
                Request,
                FetchFailure,
            >(pending@),
            step matches Err(e) ==> failure_of(e) is Some && self@.start(url@, parsed_host(url@))
                == Err::<Request, FetchFailure>(failure_of(e)->0),
    {
        self.start(url, parse_host(url))
    }
}

/// Mathematical model of a payload that is being received.
pub struct BodyState {
    /// Ceiling on the size of the payload.
    pub max_bytes: u64,
    /// The bytes received so far.
    pub received: Seq<u8>,
}

/// All the bytes of a run of chunks, in order.
pub open spec fn joined(chunks: Seq<Seq<u8>>) -> Seq<u8>
    decreases chunks.len(),
{
    if chunks.len() == 0 {
        Seq::empty()
    } else {
        joined(chunks.drop_last()) + chunks.last()
    }
}

impl BodyState {
    /// No more is buffered than the ceiling allows.
    pub open spec fn wf(self) -> bool {
        self.received.len() <= self.max_bytes
    }

    /// The payload after another chunk has arrived, unless the chunk takes it
    /// past the ceiling.
    pub open spec fn accept(self, chunk: Seq<u8>) -> Option<BodyState> {
        if self.received.len() + chunk.len() <= self.max_bytes {
            Some(BodyState { received: self.received + chunk, ..self })
        } else {
            None
        }
    }

    /// The payload after a run of chunks has arrived, unless one of them takes
    /// it past the ceiling.
    pub open spec fn accept_all(self, chunks: Seq<Seq<u8>>) -> Option<BodyState>
        decreases chunks.len(),
    {
        if chunks.len() == 0 {
            Some(self)
        } else {
            match self.accept_all(chunks.drop_last()) {
                Some(body) => body.accept(chunks.last()),
                None => None,
            }
        }
    }
}

/// How the head of an answer is judged: a 429 status means that the host
/// limits the rate; a declared length above the ceiling means that the
/// payload is too big; anything else lets the body be read.
pub open spec fn head_verdict(max_bytes: u64, status: u16, declared: Option<u64>) -> Result<
    BodyState,
    FetchFailure,
> {
    if status == 429 {
        Err(FetchFailure::Ratelimited)
    } else if declared matches Some(n) && n > max_bytes {
        Err(FetchFailure::PayloadTooBig)
    } else {
        Ok(BodyState { max_bytes, received: Seq::empty() })
    }
}

/// A payload that is being received: the second step of a fetch.
#[derive(Debug)]
pub struct Body {
    max_bytes: u64,
    received: Vec<u8>,
}

impl View for Body {
    type V = BodyState;

    closed spec fn view(&self) -> BodyState {
        BodyState { max_bytes: self.max_bytes, received: self.received@ }
    }
}

impl Pending {
    /// Judges the head of the answer: its status code and the length of the
    /// body, where the answer declares one.
    pub fn on_response(&self, status: u16, declared: Option<u64>) -> (step: Result<Body, Error>)
        ensures
            step matches Ok(body) ==> body@.wf() && head_verdict(self.max_bytes, status, declared)
                == Ok::<BodyState, FetchFailure>(body@),
            step matches Err(e) ==> failure_of(e) is Some && head_verdict(
                self.max_bytes,
                status,
                declared,
            ) == Err::<BodyState, FetchFailure>(failure_of(e)->0),
    {
        if status == 429 {
            return Err(Error::Ratelimited);
        }
        match declared {
            Some(n) => {
                if n > self.max_bytes {
                    return Err(Error::PayloadTooBig);
                }
            },
            None => {},
        }
        Ok(Body { max_bytes: self.max_bytes, received: Vec::new() })
    }

    /// The failure to report when the request could not be sent or answered
    /// in time.
    pub fn on_failure(&self, detail: String) -> (e: Error)
        ensures
            e == Error::Hyper(detail),
    {
        Error::Hyper(detail)
    }
}

impl Body {
    #[verifier::type_invariant]
    spec fn within_ceiling(self) -> bool {
        self.received@.len() <= self.max_bytes
    }

    /// Number of bytes received so far.
    pub fn len(&self) -> (n: usize)
        ensures
            n == self@.received.len(),
    {
        self.received.len()
    }

    /// Takes in the next chunk of the body. A chunk that takes the payload
    /// past the ceiling ends the fetch and is not buffered.
    pub fn on_chunk(self, chunk: &[u8]) -> (step: Result<Body, Error>)
        ensures
            self@.wf(),
            step matches Ok(body) ==> body@.wf() && self@.accept(chunk@) == Some(body@),
            step matches Err(e) ==> e == Error::PayloadTooBig && self@.accept(chunk@) is None,
    {
        proof {
            use_type_invariant(&self);
        }
        let room: u64 = self.max_bytes - self.received.len() as u64;
        if chunk.len() as u64 > room {
            return Err(Error::PayloadTooBig);
        }
        let max_bytes: u64 = self.max_bytes;
        let mut received: Vec<u8> = self.received;
        let ghost before = received@;
        let mut i: usize = 0;
        while i < chunk.len()
            invariant
                i <= chunk@.len(),
                received@ == before + chunk@.subrange(0, i as int),
            decreases chunk@.len() - i,
        {
            received.push(chunk[i]);
            i = i + 1;
            assert(received@ =~= before + chunk@.subrange(0, i as int));
        }
        assert(chunk@.subrange(0, chunk@.len() as int) =~= chunk@);
        Ok(Body { max_bytes, received })
    }

    /// The failure to report when the connection broke while the body was
    /// read.
    pub fn on_failure(self, detail: String) -> (e: Error)
        ensures
            e == Error::Hyper(detail),
    {
        Error::Hyper(detail)
    }

    /// Ends the fetch at the end of the body and hands out the payload.
    pub fn finish(self) -> (payload: Vec<u8>)
        ensures
            payload@ == self@.received,
    {
        self.received
    }
}

/// The length of a run of chunks.
pub open spec fn total_len(chunks: Seq<Seq<u8>>) -> nat
    decreases chunks.len(),
{
    if chunks.len() == 0 {
        0
    } else {
        total_len(chunks.drop_last()) + chunks.last().len()
    }
}

/// A body is accepted to its end exactly if all of it fits under the ceiling
/// together with what was received before, and then all of it has been
/// received, in order. Nothing beyond the ceiling is ever buffered.
pub proof fn lemma_size_cap(body: BodyState, chunks: Seq<Seq<u8>>)
    requires
        body.wf(),
    ensures
        joined(chunks).len() == total_len(chunks),
        body.accept_all(chunks) is Some <==> body.received.len() + total_len(chunks)
            <= body.max_bytes,
        body.accept_all(chunks) matches Some(end) ==> end.wf() && end.max_bytes == body.max_bytes
            && end.received == body.received + joined(chunks),
    decreases chunks.len(),
{
    if chunks.len() > 0 {
        lemma_size_cap(body, chunks.drop_last());
        match body.accept_all(chunks.drop_last()) {
            Some(mid) => {
                assert(mid.received + chunks.last() =~= body.received + joined(chunks));
            },
            None => {},
        }
    } else {
        assert(body.received =~= body.received + joined(chunks));
    }
}

} // verus!
