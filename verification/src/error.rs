//! The failures of the service and the structured reply each one maps to.

use vstd::prelude::*;
use vstd::string::StringExecFns;

verus! {

/// Everything that can go wrong while a request is served. Failures that
/// come from a collaborator (codec, transport, parser) carry its message.
#[derive(Debug, Clone, PartialEq, Eq)]
pub enum Error {
    /// Malformed image bytes, or a failure to encode an image.
    Image(String),
    /// Transport failure while fetching: DNS, TLS, connection, timeout.
    Hyper(String),
    /// A reply could not be assembled.
    Http(String),
    /// Malformed SVG data.
    Svg(String),
    /// Malformed request body.
    Json(String),
    /// The fetched payload exceeds the configured ceiling.
    PayloadTooBig,
    /// The background image is smaller than the template.
    ImageTooSmall,
    /// The fetch target is not a URI.
    InvalidUri(String),
    /// Failure to read image data.
    Io(String),
    /// The fetch target has no host, or one that is not trusted.
    InvalidImageHost,
    /// The image host answered 429 Too Many Requests.
    Ratelimited,
}

/// A client-facing reply: status code, content type and JSON body.
#[derive(Debug, Clone, PartialEq, Eq)]
pub struct ErrorResponse {
    pub status: u16,
    pub content_type: String,
    pub body: String,
}

/// The JSON document that reports a failure. `detail` is inserted as it is.
pub open spec fn error_body(reason: Seq<char>, detail: Seq<char>) -> Seq<char> {
    "{\"status\": \"error\", \"reason\": \""@ + reason + "\", \"detail\": \""@ + detail + "\"}"@
}

impl Error {
    /// Status code of the reply: 422 for every failure that the request's
    /// data or the image host causes, 500 for a failure of the service
    /// itself.
    pub open spec fn status(self) -> u16 {
        match self {
            Error::Svg(_) => 422,
            Error::Hyper(_) => 422,
            Error::Image(_) => 422,
            Error::Io(_) => 422,
            Error::Json(_) => 422,
            Error::ImageTooSmall => 422,
            Error::InvalidImageHost => 422,
            Error::Ratelimited => 422,
            Error::PayloadTooBig => 422,
            Error::InvalidUri(_) => 422,
            Error::Http(_) => 500,
        }
    }

    /// Machine-readable reason of the reply.
    pub open spec fn reason(self) -> Seq<char> {
        match self {
            Error::Svg(_) => "invalid SVG data"@,
            Error::Hyper(_) => "download error"@,
            Error::Image(_) => "invalid image data"@,
            Error::Io(_) => "invalid image data"@,
            Error::Json(_) => "invalid request JSON data"@,
            Error::ImageTooSmall => "background image too small"@,
            Error::InvalidImageHost => "invalid image host"@,
            Error::Ratelimited => "ratelimited"@,
            Error::PayloadTooBig => "payload too big"@,
            Error::InvalidUri(_) => "invalid image url"@,
            Error::Http(_) => "unknown"@,
        }
    }

    /// Human-readable detail of the reply.
    pub open spec fn detail(self) -> Seq<char> {
        match self {
            Error::Svg(msg) => msg@,
            Error::Hyper(msg) => msg@,
            Error::Image(msg) => msg@,
            Error::Io(msg) => msg@,
            Error::Json(msg) => msg@,
            Error::ImageTooSmall => "background image must be at least 800x533 in size"@,
            Error::InvalidImageHost => "custom backgrounds must be hosted on a trusted domain"@,
            Error::Ratelimited =>
                "the custom background image host has ratelimited or banned our IP"@,
            Error::PayloadTooBig => "the image is larger than the size that is accepted"@,
            Error::InvalidUri(msg) => msg@,
            Error::Http(_) => ""@,
        }
    }

    /// The structured reply for this failure.
    pub fn into_response(&self) -> (reply: ErrorResponse)
        ensures
            reply.status == self.status(),
            reply.content_type@ == "application/json"@,
            reply.body@ == error_body(self.reason(), self.detail()),
    {
        match self {
            Error::Svg(msg) => describe(422, "invalid SVG data", msg.as_str()),
            Error::Hyper(msg) => describe(422, "download error", msg.as_str()),
            Error::Image(msg) => describe(422, "invalid image data", msg.as_str()),
            Error::Io(msg) => describe(422, "invalid image data", msg.as_str()),
            Error::Json(msg) => describe(422, "invalid request JSON data", msg.as_str()),
            Error::ImageTooSmall => describe(
                422,
                "background image too small",
                "background image must be at least 800x533 in size",
            ),
            Error::InvalidImageHost => describe(
                422,
                "invalid image host",
                "custom backgrounds must be hosted on a trusted domain",
            ),
            Error::Ratelimited => describe(
                422,
                "ratelimited",
                "the custom background image host has ratelimited or banned our IP",
            ),
            Error::PayloadTooBig => describe(
                422,
                "payload too big",
                "the image is larger than the size that is accepted",
            ),
            Error::InvalidUri(msg) => describe(422, "invalid image url", msg.as_str()),
            Error::Http(_) => describe(500, "unknown", ""),
        }
    }
}

fn describe(status: u16, reason: &str, detail: &str) -> (reply: ErrorResponse)
    ensures
        reply.status == status,
        reply.content_type@ == "application/json"@,
        reply.body@ == error_body(reason@, detail@),
{
    let mut body: String = String::from_str("{\"status\": \"error\", \"reason\": \"");
    body.append(reason);
    body.append("\", \"detail\": \"");
    body.append(detail);
    body.append("\"}");
    ErrorResponse { status, content_type: String::from_str("application/json"), body }
}

/// Only a failure of the service itself is reported as a server error:
/// every other failure gets status 422 and a reason of its own.
pub proof fn lemma_client_failures_are_told_apart(e: Error)
    ensures
        e.status() == 500 <==> e is Http,
        !(e is Http) ==> e.status() == 422 && e.reason() != "unknown"@,
        e is PayloadTooBig || e is ImageTooSmall || e is InvalidImageHost || e is Ratelimited
            ==> e.detail().len() > 0,
{
    reveal_strlit("unknown");
    reveal_strlit("invalid SVG data");
    reveal_strlit("download error");
    reveal_strlit("invalid image data");
    reveal_strlit("invalid request JSON data");
    reveal_strlit("background image too small");
    reveal_strlit("invalid image host");
    reveal_strlit("ratelimited");
    reveal_strlit("payload too big");
    reveal_strlit("invalid image url");
    reveal_strlit("the image is larger than the size that is accepted");
    reveal_strlit("background image must be at least 800x533 in size");
    reveal_strlit("custom backgrounds must be hosted on a trusted domain");
    reveal_strlit("the custom background image host has ratelimited or banned our IP");
    assert("unknown"@.len() == 7);
    if !(e is Http) {
        assert(e.reason().len() != 7);
    }
}

} // verus!
