use ajar_gateway::admin::{healthz, metrics_endpoint};
use ajar_gateway::config::{GatewayConfig, ListenAddr, ValidatedConfig};
use ajar_gateway::error::{problem_title, ProxyHttpError};
use ajar_gateway::metrics::Metrics;
use ajar_gateway::proxy::{
    build_parsed_request, build_upstream_request, proxy_request, upstream_uri, ExchangeAction, ExchangeEvent,
    ExchangePhase, RequestHead,
};
use ajar_gateway::uri::UriParts;
use axum::body::{to_bytes, Body, Bytes};
use axum::http::header::{HeaderName, CONTENT_LENGTH, CONTENT_TYPE};
use axum::http::{HeaderMap, HeaderValue, Method, Request, Response, StatusCode, Uri};
use http_body_util::{BodyExt, Limited};
use std::error::Error;
use std::future::Future;

const ORIGIN: &str = "127.0.0.1:8080";

fn config(max_body_bytes: u64) -> ValidatedConfig {
    let addr = ListenAddr::V4 {
        octets: [127, 0, 0, 1],
        port: 0,
    };
    let config = GatewayConfig {
        origin_url: format!("http://{ORIGIN}"),
        listen_addr: addr,
        admin_addr: addr,
        request_timeout_ms: 5_000,
        max_body_bytes,
    };
    config.validate().unwrap()
}

fn head(path_and_query: Option<&str>, fields: &[(&'static str, &'static str)]) -> RequestHead {
    let mut headers = HeaderMap::new();
    for (name, value) in fields {
        headers.append(HeaderName::from_static(name), HeaderValue::from_static(value));
    }
    RequestHead {
        path_and_query: path_and_query.map(|value| value.to_owned()),
        headers,
    }
}

fn block_on<T>(future: impl Future<Output = T>) -> T {
    tokio::runtime::Builder::new_current_thread().build().unwrap().block_on(future)
}

/// Takes a request through one exchange with an origin in this process.
async fn exchange<F: Future<Output = Response<Body>>>(
    config: &ValidatedConfig,
    metrics: &mut Metrics,
    origin: fn(Request<Body>) -> F,
    request: Request<Body>,
) -> Response<Body> {
    let (mut parts, body) = request.into_parts();
    let head = RequestHead {
        path_and_query: parts.uri.path_and_query().map(|value| value.as_str().to_owned()),
        headers: std::mem::take(&mut parts.headers),
    };
    let received = ExchangeEvent::Received(head);
    let (phase, action) = proxy_request(config, metrics, ExchangePhase::AwaitingRequest, received);
    match action {
        ExchangeAction::SendUpstream(upstream) => {
            parts.uri = upstream.uri.parse().unwrap();
            parts.headers = upstream.headers;
            let body = Body::new(Limited::new(body, upstream.body_limit));
            let (mut parts, body) = origin(Request::from_parts(parts, body)).await.into_parts();
            let responded = ExchangeEvent::Responded(std::mem::take(&mut parts.headers));
            let (phase, action) = proxy_request(config, metrics, phase, responded);
            assert_eq!(phase, ExchangePhase::Answered);
            match action {
                ExchangeAction::Relay(headers) => {
                    parts.headers = headers;
                    Response::from_parts(parts, body)
                }
                _ => panic!("a response is relayed"),
            }
        }
        ExchangeAction::Refuse(error) => {
            assert_eq!(phase, ExchangePhase::Answered);
            let refusal = error.into_response();
            let mut response = Response::new(Body::empty());
            *response.status_mut() = StatusCode::from_u16(refusal.status).unwrap();
            for (name, value) in refusal.headers {
                response.headers_mut().insert(name, HeaderValue::from_static(value));
            }
            response
        }
        ExchangeAction::Relay(_) => panic!("nothing has responded yet"),
    }
}

async fn origin_get(request: Request<Body>) -> Response<Body> {
    let custom = match request.headers().get("x-custom") {
        Some(value) => value.clone(),
        None => HeaderValue::from_static(""),
    };
    let path = match request.uri().path_and_query() {
        Some(value) => value.as_str().to_owned(),
        None => "/".to_owned(),
    };
    let mut response = Response::new(Body::from(format!("get:{path}")));
    *response.status_mut() = StatusCode::PARTIAL_CONTENT;
    response.headers_mut().insert("x-origin", HeaderValue::from_static("yes"));
    response.headers_mut().insert("x-seen-custom", custom);
    response
}

async fn origin_post(request: Request<Body>) -> Response<Body> {
    let bytes = match to_bytes(request.into_body(), 1024).await {
        Ok(bytes) => bytes,
        Err(_) => Bytes::new(),
    };
    let mut response = Response::new(Body::from(bytes));
    *response.status_mut() = StatusCode::CREATED;
    response
}

async fn origin_hop(request: Request<Body>) -> Response<Body> {
    let stripped =
        request.headers().get("x-remove").is_none() && request.headers().get("keep-alive").is_none();
    let mut response = Response::new(Body::from(if stripped { "stripped" } else { "leaked" }));
    response.headers_mut().insert("connection", HeaderValue::from_static("close"));
    response
}

#[test]
fn get_request_passes_through_status_headers_and_body() -> Result<(), Box<dyn Error>> {
    let request = Request::builder()
        .method(Method::GET)
        .uri(format!("http://{ORIGIN}/get?x=1"))
        .header("x-custom", "kept")
        .body(Body::empty())?;

    let mut metrics = Metrics::default();
    let response = block_on(exchange(&config(1024), &mut metrics, origin_get, request));
    let status = response.status();
    let headers = response.headers().clone();
    let body = block_on(response.into_body().collect())?.to_bytes();

    assert_eq!(status, StatusCode::PARTIAL_CONTENT);
    assert_eq!(headers.get("x-origin"), Some(&HeaderValue::from_static("yes")));
    assert_eq!(headers.get("x-seen-custom"), Some(&HeaderValue::from_static("kept")));
    assert_eq!(body, Bytes::from_static(b"get:/get?x=1"));
    Ok(())
}

#[test]
fn post_body_streams_through() -> Result<(), Box<dyn Error>> {
    let request = Request::builder()
        .method(Method::POST)
        .uri(format!("http://{ORIGIN}/post"))
        .header(CONTENT_TYPE, "application/octet-stream")
        .body(Body::from("posted-body"))?;

    let mut metrics = Metrics::default();
    let response = block_on(exchange(&config(1024), &mut metrics, origin_post, request));
    let body = block_on(response.into_body().collect())?.to_bytes();

    assert_eq!(body, Bytes::from_static(b"posted-body"));
    Ok(())
}

#[test]
fn hop_by_hop_headers_are_stripped() -> Result<(), Box<dyn Error>> {
    let request = Request::builder()
        .method(Method::GET)
        .uri(format!("http://{ORIGIN}/hop"))
        .header("connection", "x-remove")
        .header("x-remove", "present")
        .header("keep-alive", "timeout=5")
        .body(Body::empty())?;

    let mut metrics = Metrics::default();
    let response = block_on(exchange(&config(1024), &mut metrics, origin_hop, request));
    let headers = response.headers().clone();
    let body = block_on(response.into_body().collect())?.to_bytes();

    assert_eq!(headers.get("connection"), None);
    assert_eq!(body, Bytes::from_static(b"stripped"));
    Ok(())
}

#[test]
fn admin_healthz_and_metrics_respond() {
    let health_body = format!("{{\"status\":\"{}\"}}", healthz().status);
    let metrics = metrics_endpoint(&Metrics::default());

    assert_eq!(health_body, r#"{"status":"ok"}"#);
    assert!(metrics.body.contains("requests_total"));
    assert_eq!(metrics.content_type, "text/plain; charset=utf-8");
}

#[test]
fn oversized_body_is_rejected() -> Result<(), Box<dyn Error>> {
    let request = Request::builder()
        .method(Method::POST)
        .uri(format!("http://{ORIGIN}/post"))
        .header(CONTENT_LENGTH, "5")
        .body(Body::from("12345"))?;

    let mut metrics = Metrics::default();
    let response = block_on(exchange(&config(4), &mut metrics, origin_post, request));

    assert_eq!(response.status(), StatusCode::PAYLOAD_TOO_LARGE);
    assert_eq!(
        response.headers().get("ajar-error-code"),
        Some(&HeaderValue::from_static("AJAR_GATEWAY_REQUEST_BODY_TOO_LARGE"))
    );
    Ok(())
}

#[test]
fn undeclared_oversized_body_is_cut_off() -> Result<(), Box<dyn Error>> {
    let request = Request::builder()
        .method(Method::POST)
        .uri(format!("http://{ORIGIN}/post"))
        .body(Body::from("12345"))?;

    let mut metrics = Metrics::default();
    let response = block_on(exchange(&config(4), &mut metrics, origin_post, request));
    let body = block_on(response.into_body().collect())?.to_bytes();

    assert_eq!(body, Bytes::new());
    Ok(())
}

#[test]
fn body_at_the_limit_is_sent() {
    let upstream = build_upstream_request(&config(5), head(Some("/post"), &[("content-length", "5")])).unwrap();
    assert_eq!(upstream.uri, "http://127.0.0.1:8080/post");
    assert_eq!(upstream.body_limit, 5);
    assert_eq!(upstream.headers.get("content-length"), Some(&HeaderValue::from_static("5")));
}

#[test]
fn target_without_a_path_goes_to_the_root() {
    assert_eq!(upstream_uri(&config(1), &None), "http://127.0.0.1:8080/");
    let upstream = build_upstream_request(&config(1), head(None, &[])).unwrap();
    assert_eq!(upstream.uri, "http://127.0.0.1:8080/");
}

#[test]
fn each_refusal_of_a_request() {
    let refused = |path, fields: &[(&'static str, &'static str)]| {
        build_upstream_request(&config(4), head(path, fields)).err()
    };
    assert_eq!(refused(Some("/"), &[("content-length", "4")]), None);
    assert_eq!(
        refused(Some("/"), &[("content-length", "5")]),
        Some(ProxyHttpError::RequestBodyTooLarge)
    );
    assert_eq!(
        refused(Some("/"), &[("content-length", "four")]),
        Some(ProxyHttpError::InvalidContentLength)
    );
    assert_eq!(refused(Some("/a b"), &[]), Some(ProxyHttpError::InvalidUpstreamUri));
    assert_eq!(
        refused(Some("/a b"), &[("content-length", "5")]),
        Some(ProxyHttpError::RequestBodyTooLarge)
    );
}

#[test]
fn request_is_built_from_what_its_uri_spells() {
    let spelled = || {
        Some(UriParts {
            scheme: Some("http".to_owned()),
            authority: Some(ORIGIN.to_owned()),
            path_and_query: Some("/x".to_owned()),
        })
    };
    let request = head(Some("/x"), &[("te", "a"), ("x-b", "c")]);
    let built = build_parsed_request(&config(4), request, "http://a/b".to_owned(), spelled()).unwrap();
    assert_eq!(built.uri, "http://a/b");
    assert_eq!(built.body_limit, 4);
    assert_eq!(built.headers.len(), 1);
    assert_eq!(built.headers.get("x-b"), Some(&HeaderValue::from_static("c")));
    assert_eq!(
        build_parsed_request(&config(4), head(Some("/x"), &[]), "".to_owned(), None).err(),
        Some(ProxyHttpError::InvalidUpstreamUri)
    );
}

#[test]
fn request_is_not_built_for_another_authority() {
    for authority in [Some(format!("{ORIGIN}*")), Some("127.0.0.1".to_owned()), None] {
        let spelled = UriParts {
            scheme: Some("http".to_owned()),
            authority,
            path_and_query: Some("/".to_owned()),
        };
        let uri = format!("http://{ORIGIN}*");
        assert_eq!(
            build_parsed_request(&config(4), head(Some("*"), &[]), uri, Some(spelled)).err(),
            Some(ProxyHttpError::InvalidUpstreamUri)
        );
    }
}

#[test]
fn asterisk_target_is_refused() -> Result<(), Box<dyn Error>> {
    let spelled: Uri = format!("http://{ORIGIN}*").parse()?;
    assert_eq!(spelled.authority().unwrap().as_str(), "127.0.0.1:8080*");
    assert_eq!(
        build_upstream_request(&config(1), head(Some("*"), &[])).err(),
        Some(ProxyHttpError::InvalidUpstreamUri)
    );
    assert_eq!(
        build_upstream_request(&config(1), head(Some("*"), &[("content-length", "2")])).err(),
        Some(ProxyHttpError::RequestBodyTooLarge)
    );

    let request = Request::builder().method(Method::OPTIONS).uri("*").body(Body::empty())?;
    let mut metrics = Metrics::default();
    let response = block_on(exchange(&config(1), &mut metrics, origin_get, request));
    assert_eq!(response.status(), StatusCode::BAD_GATEWAY);
    assert_eq!(
        response.headers().get("ajar-error-code"),
        Some(&HeaderValue::from_static("AJAR_GATEWAY_INVALID_UPSTREAM_URI"))
    );
    assert_eq!(metrics.render(), "requests_total 1\nupstream_errors_total 0\n");
    Ok(())
}

#[test]
fn refusals_are_answered_with_status_title_and_code() {
    let expected = [
        (
            ProxyHttpError::InvalidContentLength,
            413,
            "Payload Too Large",
            "AJAR_GATEWAY_INVALID_CONTENT_LENGTH",
            "content-length invalid",
        ),
        (
            ProxyHttpError::RequestBodyTooLarge,
            413,
            "Payload Too Large",
            "AJAR_GATEWAY_REQUEST_BODY_TOO_LARGE",
            "request body too large",
        ),
        (
            ProxyHttpError::InvalidUpstreamUri,
            502,
            "Bad Gateway",
            "AJAR_GATEWAY_INVALID_UPSTREAM_URI",
            "upstream uri invalid",
        ),
        (
            ProxyHttpError::UpstreamTimeout,
            502,
            "Bad Gateway",
            "AJAR_GATEWAY_UPSTREAM_TIMEOUT",
            "upstream timed out",
        ),
        (
            ProxyHttpError::Upstream,
            502,
            "Bad Gateway",
            "AJAR_GATEWAY_UPSTREAM_ERROR",
            "upstream request failed",
        ),
    ];
    for (error, status, title, code, message) in expected {
        assert_eq!(error.status(), status);
        assert_eq!(error.code(), code);
        assert_eq!(error.message(), message);
        let response = error.into_response();
        assert_eq!(response.status, status);
        assert_eq!(
            response.headers,
            [("ajar-error-code", code), ("content-type", "application/problem+json")]
        );
        assert_eq!(response.problem.status, status);
        assert_eq!(response.problem.title, title);
        assert_eq!(response.problem.code, code);
    }
}

#[test]
fn status_without_a_phrase_has_a_stand_in_title() {
    assert_eq!(problem_title(Some("Bad Gateway")), "Bad Gateway");
    assert_eq!(problem_title(None), "Gateway error");
}

#[test]
fn exchanges_are_counted() {
    let config = config(4);
    let mut metrics = Metrics::default();
    assert_eq!(metrics.render(), "requests_total 0\nupstream_errors_total 0\n");

    for event in [ExchangeEvent::UpstreamFailed, ExchangeEvent::UpstreamTimedOut] {
        let late = matches!(event, ExchangeEvent::UpstreamTimedOut);
        let received = ExchangeEvent::Received(head(Some("/"), &[]));
        let (phase, _) = proxy_request(&config, &mut metrics, ExchangePhase::AwaitingRequest, received);
        assert_eq!(phase, ExchangePhase::AwaitingUpstream);
        let (phase, action) = proxy_request(&config, &mut metrics, phase, event);
        assert_eq!(phase, ExchangePhase::Answered);
        match action {
            ExchangeAction::Refuse(error) if late => assert_eq!(error, ProxyHttpError::UpstreamTimeout),
            ExchangeAction::Refuse(error) => assert_eq!(error, ProxyHttpError::Upstream),
            _ => panic!("a failed request is refused"),
        }
    }
    assert_eq!(metrics.render(), "requests_total 2\nupstream_errors_total 2\n");

    let received = ExchangeEvent::Received(head(Some("/"), &[("content-length", "5")]));
    let (phase, _) = proxy_request(&config, &mut metrics, ExchangePhase::AwaitingRequest, received);
    assert_eq!(phase, ExchangePhase::Answered);
    assert_eq!(metrics.render(), "requests_total 3\nupstream_errors_total 2\n");
}

#[test]
fn counters_count() {
    let mut metrics = Metrics::default();
    for _ in 0..12 {
        metrics.increment_requests_total();
    }
    metrics.increment_upstream_errors_total();
    assert_eq!(metrics.render(), "requests_total 12\nupstream_errors_total 1\n");
}

#[test]
fn counters_add_up_from_any_start() {
    let mut metrics = Metrics::default();
    for _ in 0..3 {
        metrics.increment_requests_total();
    }
    metrics.increment_upstream_errors_total();
    for _ in 0..1000 {
        metrics.increment_requests_total();
    }
    assert_eq!(metrics.render(), "requests_total 1003\nupstream_errors_total 1\n");
}

#[test]
fn sent_request_goes_to_the_origin() {
    for target in ["/", "/get?x=1", "//other.example/", "/@other.example/", "/a:80?b=http://c/@d", "/%20?", "?x=1"] {
        let upstream = build_upstream_request(&config(1), head(Some(target), &[])).unwrap();
        let uri: Uri = upstream.uri.parse().unwrap();
        assert_eq!(uri.scheme_str(), Some("http"), "{target}");
        assert_eq!(uri.authority().unwrap().as_str(), ORIGIN, "{target}");
        assert_eq!(uri.path_and_query().unwrap().as_str(), target, "{target}");
    }
    for target in ["", "#fragment"] {
        let upstream = build_upstream_request(&config(1), head(Some(target), &[])).unwrap();
        let uri: Uri = upstream.uri.parse().unwrap();
        assert_eq!(uri.authority().unwrap().as_str(), ORIGIN, "{target}");
    }
    for target in ["*", "0", ":80/", ".other.example/", "@other.example/", "@other.example?x=1"] {
        assert_eq!(
            build_upstream_request(&config(1), head(Some(target), &[])).err(),
            Some(ProxyHttpError::InvalidUpstreamUri),
            "{target}"
        );
    }
}

#[test]
fn interleaved_exchanges_are_counted_once_each() {
    let config = config(4);
    let mut metrics = Metrics::default();
    let mut phases = [ExchangePhase::AwaitingRequest; 4];
    let received = |fields| ExchangeEvent::Received(head(Some("/"), fields));
    let run = [
        (0, received(&[])),
        (1, received(&[])),
        (2, received(&[("content-length", "5")])),
        (1, ExchangeEvent::UpstreamTimedOut),
        (3, received(&[])),
        (0, ExchangeEvent::Responded(HeaderMap::new())),
        (3, ExchangeEvent::UpstreamFailed),
    ];
    for (id, event) in run {
        let id: usize = id;
        phases[id] = proxy_request(&config, &mut metrics, phases[id], event).0;
    }
    assert_eq!(phases, [ExchangePhase::Answered; 4]);
    assert_eq!(metrics.render(), "requests_total 4\nupstream_errors_total 2\n");
    assert_eq!(metrics_endpoint(&metrics).body, "requests_total 4\nupstream_errors_total 2\n");
}
