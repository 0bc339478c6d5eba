use okapi::error::Error;
use okapi::fetcher::{Fetcher, ProxyRoute, DEFAULT_MAX_BYTES, DEFAULT_TIMEOUT_MS};

fn route() -> ProxyRoute {
    ProxyRoute {
        url: String::from("http://proxy.internal:3128"),
        username: String::from("user"),
        password: String::from("secret"),
    }
}

#[test]
fn host_off_the_allowlist_is_refused() {
    let fetcher = Fetcher::direct(vec![String::from("i.imgur.com")]);
    assert_eq!(
        fetcher.fetch("https://evil.example/x"),
        Err(Error::InvalidImageHost)
    );
}

#[test]
fn default_allowlist() {
    let fetcher = Fetcher::new();
    for url in [
        "https://idlerpg.xyz/image.png",
        "https://i.imgur.com/abc.jpg",
        "https://i.postimg.cc/x/y.png",
    ] {
        let pending = fetcher.fetch(url).unwrap();
        assert_eq!(pending.url, url);
        assert_eq!(pending.proxy, None);
        assert_eq!(pending.authorization, None);
        assert_eq!(pending.max_bytes, 3 * 1024 * 1024);
        assert_eq!(pending.max_bytes, DEFAULT_MAX_BYTES);
        assert_eq!(pending.timeout_ms, DEFAULT_TIMEOUT_MS);
    }
    assert_eq!(
        fetcher.fetch("https://imgur.com/abc.jpg"),
        Err(Error::InvalidImageHost)
    );
    assert_eq!(
        fetcher.fetch("https://i.imgur.com.evil.example/abc.jpg"),
        Err(Error::InvalidImageHost)
    );
}

#[test]
fn host_is_taken_from_the_authority() {
    let fetcher = Fetcher::direct(vec![String::from("i.imgur.com")]);
    assert!(fetcher.fetch("https://i.imgur.com:8443/a.png?x=1").is_ok());
    assert!(fetcher.fetch("https://user@i.imgur.com/a.png").is_ok());
    assert_eq!(
        fetcher.fetch("https://evil.example/i.imgur.com"),
        Err(Error::InvalidImageHost)
    );
    assert_eq!(
        fetcher.fetch("https://evil.example/?host=i.imgur.com"),
        Err(Error::InvalidImageHost)
    );
}

#[test]
fn url_without_host_is_refused() {
    let fetcher = Fetcher::new();
    assert_eq!(fetcher.fetch("/only/a/path"), Err(Error::InvalidImageHost));
}

#[test]
fn text_that_is_no_uri_is_refused() {
    let fetcher = Fetcher::new();
    assert!(matches!(fetcher.fetch(""), Err(Error::InvalidUri(_))));
    assert!(matches!(
        fetcher.fetch("https://i.imgur.com/a b"),
        Err(Error::InvalidUri(_))
    ));
    let proxied = Fetcher::forced_proxy(route());
    assert!(matches!(proxied.fetch(""), Err(Error::InvalidUri(_))));
}

#[test]
fn empty_allowlist_refuses_everything() {
    let fetcher = Fetcher::direct(Vec::new());
    assert_eq!(
        fetcher.fetch("https://i.imgur.com/a.png"),
        Err(Error::InvalidImageHost)
    );
}

#[test]
fn forced_proxy_sends_everything_to_the_proxy() {
    let fetcher = Fetcher::forced_proxy(route());
    let pending = fetcher.fetch("https://evil.example/x").unwrap();
    assert_eq!(pending.url, "https://evil.example/x");
    assert_eq!(pending.proxy, Some(route()));
    let pending = fetcher.fetch("/only/a/path").unwrap();
    assert_eq!(pending.url, "/only/a/path");
}

#[test]
fn admits_follows_the_mode() {
    let direct = Fetcher::direct(vec![String::from("a.example"), String::from("b.example")]);
    assert!(direct.admits(&Some(String::from("a.example"))));
    assert!(direct.admits(&Some(String::from("b.example"))));
    assert!(!direct.admits(&Some(String::from("c.example"))));
    assert!(!direct.admits(&Some(String::from("A.example"))));
    assert!(!direct.admits(&None));
    let proxied = Fetcher::forced_proxy(route());
    assert!(proxied.admits(&Some(String::from("c.example"))));
    assert!(proxied.admits(&None));
}

#[test]
fn configuration_reaches_the_request() {
    let fetcher = Fetcher::direct(vec![String::from("a.example")])
        .with_max_bytes(10)
        .with_timeout(250)
        .with_authorization(String::from("token"));
    let pending = fetcher.fetch("http://a.example/").unwrap();
    assert_eq!(pending.max_bytes, 10);
    assert_eq!(pending.timeout_ms, 250);
    assert_eq!(pending.authorization, Some(String::from("token")));
}

#[test]
fn too_many_requests_is_ratelimited() {
    let pending = Fetcher::new().fetch("https://i.imgur.com/a.png").unwrap();
    assert_eq!(pending.on_response(429, Some(10)).unwrap_err(), Error::Ratelimited);
    assert_eq!(pending.on_response(429, None).unwrap_err(), Error::Ratelimited);
    assert_eq!(
        pending.on_response(429, Some(u64::MAX)).unwrap_err(),
        Error::Ratelimited
    );
}

#[test]
fn other_statuses_let_the_body_through() {
    let pending = Fetcher::new().fetch("https://i.imgur.com/a.png").unwrap();
    for status in [200u16, 204, 301, 404, 500] {
        let body = pending.on_response(status, Some(3)).unwrap();
        assert_eq!(body.len(), 0);
    }
}

#[test]
fn declared_length_above_the_ceiling_is_too_big() {
    let pending = Fetcher::new().fetch("https://i.imgur.com/a.png").unwrap();
    assert!(pending.on_response(200, Some(3 * 1024 * 1024)).is_ok());
    assert_eq!(
        pending.on_response(200, Some(3 * 1024 * 1024 + 1)).unwrap_err(),
        Error::PayloadTooBig
    );
    assert!(pending.on_response(200, None).is_ok());
    assert!(pending.on_response(200, Some(0)).is_ok());
}

#[test]
fn body_is_what_the_chunks_hold() {
    let pending = Fetcher::new().fetch("https://i.imgur.com/a.png").unwrap();
    let body = pending.on_response(200, None).unwrap();
    let body = body.on_chunk(&[1, 2, 3]).unwrap();
    let body = body.on_chunk(&[]).unwrap();
    let body = body.on_chunk(&[4]).unwrap();
    assert_eq!(body.len(), 4);
    assert_eq!(body.finish(), vec![1, 2, 3, 4]);
}

#[test]
fn body_without_chunks_is_empty() {
    let pending = Fetcher::new().fetch("https://i.imgur.com/a.png").unwrap();
    let body = pending.on_response(200, Some(0)).unwrap();
    assert_eq!(body.finish(), Vec::<u8>::new());
}

#[test]
fn stream_above_the_ceiling_is_too_big() {
    let fetcher = Fetcher::new().with_max_bytes(10);
    let pending = fetcher.fetch("https://i.imgur.com/a.png").unwrap();
    // The declared length is within the ceiling, the stream is not.
    let mut body = pending.on_response(200, Some(4)).unwrap();
    body = body.on_chunk(&[0; 6]).unwrap();
    body = body.on_chunk(&[0; 4]).unwrap();
    assert_eq!(body.len(), 10);
    assert_eq!(body.on_chunk(&[0; 1]).unwrap_err(), Error::PayloadTooBig);

    let body = pending.on_response(200, None).unwrap();
    assert_eq!(body.on_chunk(&[0; 11]).unwrap_err(), Error::PayloadTooBig);
}

#[test]
fn default_ceiling_is_counted_while_reading() {
    let pending = Fetcher::new().fetch("https://i.imgur.com/a.png").unwrap();
    let mut body = pending.on_response(200, None).unwrap();
    let chunk = vec![0u8; 64 * 1024];
    for _ in 0..48 {
        body = body.on_chunk(&chunk).unwrap();
    }
    assert_eq!(body.len(), 3 * 1024 * 1024);
    assert_eq!(body.on_chunk(&[0]).unwrap_err(), Error::PayloadTooBig);
}

#[test]
fn transport_failures_carry_their_message() {
    let pending = Fetcher::new().fetch("https://i.imgur.com/a.png").unwrap();
    assert_eq!(
        pending.on_failure(String::from("dns error")),
        Error::Hyper(String::from("dns error"))
    );
    let body = pending.on_response(200, None).unwrap();
    assert_eq!(
        body.on_failure(String::from("connection reset")),
        Error::Hyper(String::from("connection reset"))
    );
}
