//! What the service does with a request: the check of the pre-shared key,
//! the choice of the endpoint and the retrieval of cached images.

use crate::cache::{CacheState, ImageCache};
use crate::text::{same_bytes, same_text};
use serde_urlencoded::de::Error as QueryError;
use vstd::prelude::*;
use vstd::string::StringSliceAdditionalSpecFns;

verus! {

/// `serde_urlencoded::de::Error`: a failure to parse a query string, opaque
/// to the proofs.
#[verifier::external_type_specification]
#[verifier::external_body]
pub struct ExQueryError(QueryError);

/// The endpoints of the service.
#[derive(Debug, Clone, Copy, PartialEq, Eq)]
pub enum Route {
    Adventures,
    Chess,
    Pixelate,
    Invert,
    Edges,
    Oil,
    Overlay,
    Profile,
    Index,
    Image,
    NotFound,
}

/// The endpoint that a method and a path select.
pub open spec fn route_of(method: Seq<char>, path: Seq<char>) -> Route {
    if method == "POST"@ {
        if path == "/api/genadventures"@ {
            Route::Adventures
        } else if path == "/api/genchess"@ {
            Route::Chess
        } else if path == "/api/imageops/pixel"@ {
            Route::Pixelate
        } else if path == "/api/imageops/invert"@ {
            Route::Invert
        } else if path == "/api/imageops/edges"@ {
            Route::Edges
        } else if path == "/api/imageops/oil"@ {
            Route::Oil
        } else if path == "/api/genoverlay"@ {
            Route::Overlay
        } else if path == "/api/genprofile"@ {
            Route::Profile
        } else {
            Route::NotFound
        }
    } else if method == "GET"@ {
        if path == "/"@ {
            Route::Index
        } else if path == "/image"@ {
            Route::Image
        } else {
            Route::NotFound
        }
    } else {
        Route::NotFound
    }
}

/// Chooses the endpoint for a method and a path.
pub fn route(method: &str, path: &str) -> (chosen: Route)
    ensures
        chosen == route_of(method@, path@),
{
    if same_text(method, "POST") {
        if same_text(path, "/api/genadventures") {
            Route::Adventures
        } else if same_text(path, "/api/genchess") {
            Route::Chess
        } else if same_text(path, "/api/imageops/pixel") {
            Route::Pixelate
        } else if same_text(path, "/api/imageops/invert") {
            Route::Invert
        } else if same_text(path, "/api/imageops/edges") {
            Route::Edges
        } else if same_text(path, "/api/imageops/oil") {
            Route::Oil
        } else if same_text(path, "/api/genoverlay") {
            Route::Overlay
        } else if same_text(path, "/api/genprofile") {
            Route::Profile
        } else {
            Route::NotFound
        }
    } else if same_text(method, "GET") {
        if same_text(path, "/") {
            Route::Index
        } else if same_text(path, "/image") {
            Route::Image
        } else {
            Route::NotFound
        }
    } else {
        Route::NotFound
    }
}

/// Whether a request passes the check of the pre-shared key: only POST
/// requests are checked, and only where a key is configured; then the
/// authorization header must be there and hold the key, byte for byte.
pub open spec fn passes(method: Seq<char>, key: Option<Seq<u8>>, header: Option<Seq<u8>>) -> bool {
    method == "POST"@ && key is Some ==> header == key
}

/// Checks the pre-shared key `key` against the authorization header of a
/// request.
pub fn authorized(method: &str, key: Option<&str>, header: Option<&[u8]>) -> (pass: bool)
    ensures
        pass == passes(
            method@,
            match key {
                Some(k) => Some(k.spec_bytes()),
                None => None,
            },
            match header {
                Some(h) => Some(h@),
                None => None,
            },
        ),
{
    if !same_text(method, "POST") {
        return true;
    }
    match key {
        None => true,
        Some(k) => match header {
            None => false,
            Some(h) => same_bytes(h, k.as_bytes()),
        },
    }
}

/// What a request is answered with before any endpoint runs.
#[derive(Debug, Clone, Copy, PartialEq, Eq)]
pub enum Dispatch {
    /// 403: the pre-shared key is missing or wrong.
    Forbidden,
    /// The request goes to this endpoint.
    To(Route),
}

/// Checks the pre-shared key, then chooses the endpoint.
pub fn dispatch(method: &str, path: &str, key: Option<&str>, header: Option<&[u8]>) -> (to:
    Dispatch)
    ensures
        to == if passes(
            method@,
            match key {
                Some(k) => Some(k.spec_bytes()),
                None => None,
            },
            match header {
                Some(h) => Some(h@),
                None => None,
            },
        ) {
            Dispatch::To(route_of(method@, path@))
        } else {
            Dispatch::Forbidden
        },
{
    if authorized(method, key, header) {
        Dispatch::To(route(method, path))
    } else {
        Dispatch::Forbidden
    }
}

/// The key-value pairs of a query string in `application/x-www-form-urlencoded`
/// form, in order and percent-decoded; `None` where the parser fails.
pub uninterp spec fn form_pairs(query: Seq<char>) -> Option<Seq<(Seq<char>, Seq<char>)>>;

/// The texts of a list of pairs.
pub open spec fn pair_texts(pairs: Seq<(String, String)>) -> Seq<(Seq<char>, Seq<char>)> {
    pairs.map_values(|p: (String, String)| (p.0@, p.1@))
}

/// The plain content of a parsing result.
pub open spec fn pairs_found(parsed: Result<Vec<(String, String)>, QueryError>) -> Option<
    Seq<(Seq<char>, Seq<char>)>,
> {
    match parsed {
        Ok(pairs) => Some(pair_texts(pairs@)),
        Err(_) => None,
    }
}

/// `serde_urlencoded::from_str` into a list of pairs: splits the query string
/// into its key-value pairs. The outcome depends on the text alone.
#[verifier::external_body]
fn parse_query(query: &str) -> (parsed: Result<Vec<(String, String)>, QueryError>)
    ensures
        pairs_found(parsed) == form_pairs(query@),
{
    serde_urlencoded::from_str::<Vec<(String, String)>>(query)
}

/// The values of the pairs whose key is `key`, in order.
pub open spec fn values_of(pairs: Seq<(Seq<char>, Seq<char>)>, key: Seq<char>) -> Seq<Seq<char>>
    decreases pairs.len(),
{
    if pairs.len() == 0 {
        Seq::empty()
    } else if pairs.last().0 == key {
        values_of(pairs.drop_last(), key).push(pairs.last().1)
    } else {
        values_of(pairs.drop_last(), key)
    }
}

/// The token that a query names: the value of its `image` field. The field
/// must occur exactly once; other fields are ignored.
pub open spec fn token_named(pairs: Seq<(Seq<char>, Seq<char>)>) -> Option<Seq<char>> {
    if values_of(pairs, "image"@).len() == 1 {
        Some(values_of(pairs, "image"@)[0])
    } else {
        None
    }
}

/// Finds the token that the pairs of a query name.
pub fn image_token(pairs: &Vec<(String, String)>) -> (token: Option<String>)
    ensures
        (match token {
            Some(t) => Some(t@),
            None => None,
        }) == token_named(pair_texts(pairs@)),
{
    let mut found: Option<String> = None;
    let mut count: usize = 0;
    let mut i: usize = 0;
    let ghost all = pair_texts(pairs@);
    while i < pairs.len()
        invariant
            i <= pairs@.len(),
            count <= i,
            all == pair_texts(pairs@),
            count == values_of(all.subrange(0, i as int), "image"@).len(),
            count >= 1 ==> found is Some && found->0@ == values_of(
                all.subrange(0, i as int),
                "image"@,
            )[0],
        decreases pairs@.len() - i,
    {
        proof {
            let upto = all.subrange(0, i + 1);
            assert(upto.drop_last() =~= all.subrange(0, i as int));
            assert(upto.last() == (pairs@[i as int].0@, pairs@[i as int].1@));
        }
        if same_text(pairs[i].0.as_str(), "image") {
            if count == 0 {
                found = Some(pairs[i].1.clone());
            }
            count = count + 1;
        }
        i = i + 1;
    }
    assert(all.subrange(0, i as int) =~= all);
    if count == 1 {
        found
    } else {
        None
    }
}

/// The answer to a request for a cached image.
#[derive(Debug, Clone, PartialEq, Eq)]
pub enum ImageReply {
    /// 200: the image, as PNG.
    Found(Vec<u8>),
    /// 404: no image is stored under the token.
    Missing,
    /// 400: the query is missing or names no token.
    Malformed,
}

/// Mathematical model of the answer to a request for a cached image.
pub enum ImageAnswer {
    Found(Seq<u8>),
    Missing,
    Malformed,
}

impl View for ImageReply {
    type V = ImageAnswer;

    open spec fn view(&self) -> ImageAnswer {
        match self {
            ImageReply::Found(image) => ImageAnswer::Found(image@),
            ImageReply::Missing => ImageAnswer::Missing,
            ImageReply::Malformed => ImageAnswer::Malformed,
        }
    }
}

/// The answer to a request for a cached image, given the pairs of its query:
/// `None` for a request without query, `Some(None)` for a query that the
/// parser rejects.
pub open spec fn image_answer(
    cache: CacheState,
    query: Option<Option<Seq<(Seq<char>, Seq<char>)>>>,
) -> ImageAnswer {
    match query {
        Some(Some(pairs)) => match token_named(pairs) {
            Some(token) => match cache.get(token) {
                Some(image) => ImageAnswer::Found(image),
                None => ImageAnswer::Missing,
            },
            None => ImageAnswer::Malformed,
        },
        _ => ImageAnswer::Malformed,
    }
}

/// The plain content of an optional parsing result.
pub open spec fn query_found(parsed: Option<Result<Vec<(String, String)>, QueryError>>) -> Option<
    Option<Seq<(Seq<char>, Seq<char>)>>,
> {
    match parsed {
        Some(p) => Some(pairs_found(p)),
        None => None,
    }
}

/// Answers a request for a cached image, given what parsing its query found.
pub fn find_image(
    cache: &ImageCache,
    parsed: Option<Result<Vec<(String, String)>, QueryError>>,
) -> (reply: ImageReply)
    ensures
        reply@ == image_answer(cache@, query_found(parsed)),
{
    match parsed {
        Some(Ok(pairs)) => match image_token(&pairs) {
            Some(token) => match cache.get(token.as_str()) {
                Some(image) => ImageReply::Found(image),
                None => ImageReply::Missing,
            },
            None => ImageReply::Malformed,
        },
        _ => ImageReply::Malformed,
    }
}

/// Answers a request for a cached image with the given query string.
pub fn serve_image(cache: &ImageCache, query: Option<&str>) -> (reply: ImageReply)
    ensures
        reply@ == image_answer(
            cache@,
            match query {
                Some(q) => Some(form_pairs(q@)),
                None => None,
            },
        ),
{
    match query {
        Some(q) => find_image(cache, Some(parse_query(q))),
        None => find_image(cache, None),
    }
}

} // verus!
