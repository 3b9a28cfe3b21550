use normandy::args::{Args, Validated, ValidationError as HostError};
use normandy::config::{
    fits, Header, RequestMethod, RequestSpec, SendError, ValidatedRequest, ValidationError,
};
use normandy::worker::{Elapsed, Failure, RequestResult, Response};

fn args(host: &str) -> Args {
    Args { max_concurrent_requests: 2, verbose: false, num_requests: 3, host: host.to_string() }
}

fn headers(pairs: &[(&'static str, &'static str)]) -> http::HeaderMap {
    let mut map = http::HeaderMap::new();
    for (name, value) in pairs {
        map.append(
            http::header::HeaderName::from_static(name),
            http::header::HeaderValue::from_static(value),
        );
    }
    map
}

#[test]
fn a_header_is_made_of_a_name_and_a_value_that_were_taken() {
    let made = Header::from_parts(Some("x-a".to_string()), "1", true).unwrap();
    assert_eq!(made.name, "x-a");
    assert_eq!(made.value, "1");
}

#[test]
fn a_refused_name_counts_before_a_refused_value() {
    assert_eq!(Header::from_parts(None, "1", true).unwrap_err(), ValidationError::HeaderName);
    assert_eq!(Header::from_parts(None, "1", false).unwrap_err(), ValidationError::HeaderName);
    assert_eq!(
        Header::from_parts(Some("x-a".to_string()), "1", false).unwrap_err(),
        ValidationError::HeaderValue
    );
}

#[test]
fn a_request_is_made_of_parts_that_were_taken() {
    let request = ValidatedRequest::from_parts(
        RequestMethod::POST,
        Some("/p".to_string()),
        Some(vec![1, 2, 3]),
        Ok(headers(&[("x-a", "1"), ("x-b", "2")])),
    )
    .unwrap();
    let outgoing = request.outgoing(Some("http://host/p".to_string())).unwrap();
    assert_eq!(outgoing.method, RequestMethod::POST);
    assert_eq!(outgoing.url, "http://host/p");
    assert_eq!(outgoing.body, Some(vec![1, 2, 3]));
    assert_eq!(outgoing.headers, headers(&[("x-a", "1"), ("x-b", "2")]));
}

#[test]
fn a_refused_path_counts_before_refused_headers() {
    for given in
        [Ok(headers(&[])), Err(ValidationError::Header), Err(ValidationError::TooManyHeaders)]
    {
        assert_eq!(
            ValidatedRequest::from_parts(RequestMethod::GET, None, None, given).unwrap_err(),
            ValidationError::Path
        );
    }
    for error in [
        ValidationError::Header,
        ValidationError::HeaderName,
        ValidationError::HeaderValue,
        ValidationError::TooManyHeaders,
    ] {
        assert_eq!(
            ValidatedRequest::from_parts(
                RequestMethod::GET,
                Some("/".to_string()),
                None,
                Err(error)
            )
            .unwrap_err(),
            error
        );
    }
}

#[test]
fn a_get_goes_out_without_headers_and_body() {
    let request = ValidatedRequest::from_parts(
        RequestMethod::GET,
        Some("/p".to_string()),
        Some(vec![1]),
        Ok(headers(&[("x-a", "1")])),
    )
    .unwrap();
    let outgoing = request.outgoing(Some("http://host/p".to_string())).unwrap();
    assert_eq!(outgoing.method, RequestMethod::GET);
    assert_eq!(outgoing.url, "http://host/p");
    assert!(outgoing.headers.is_empty());
    assert_eq!(outgoing.body, None);
}

#[test]
fn without_a_url_nothing_goes_out() {
    for method in [RequestMethod::GET, RequestMethod::POST] {
        let request =
            ValidatedRequest::from_parts(method, Some("/".to_string()), None, Ok(headers(&[])))
                .unwrap();
        assert_eq!(request.outgoing(None).unwrap_err(), SendError::InvalidUrl);
    }
}

#[test]
fn the_method_is_looked_at_before_the_url() {
    for url in [None, Some("http://host/".to_string())] {
        let request = ValidatedRequest::from_parts(
            RequestMethod::DELETE,
            Some("/".to_string()),
            None,
            Ok(headers(&[])),
        )
        .unwrap();
        assert_eq!(
            request.outgoing(url).unwrap_err(),
            SendError::Unimplemented(RequestMethod::DELETE)
        );
    }
}

#[test]
fn a_host_is_kept_with_the_path_it_was_given() {
    let validated = Validated::from_parts(
        &args("HTTP://host/base"),
        Some(("http://host/base".to_string(), "/base".to_string())),
    )
    .unwrap();
    assert_eq!(validated.host.as_str(), "http://host/base");
    assert_eq!(validated.host.source(), "HTTP://host/base");
    assert_eq!(validated.host.path(), "/base");
    assert_eq!(validated.max_concurrent_requests, 2);
    assert_eq!(validated.num_requests, 3);
    assert!(!validated.verbose);
    assert_eq!(
        Validated::from_parts(&args("http://host/base"), None).unwrap_err(),
        HostError::InvalidHostUrl
    );
}

#[test]
fn a_host_that_is_no_url_gives_no_url_to_send_to() {
    let host = Validated::from_parts(
        &args("not a url"),
        Some(("http://host/".to_string(), "/".to_string())),
    )
    .unwrap()
    .host;
    let request = RequestSpec {
        method: RequestMethod::GET,
        path: "/a".to_string(),
        body: None,
        headers: vec![],
    }
    .validate()
    .unwrap();
    assert_eq!(request.send(&host).unwrap_err(), SendError::InvalidUrl);
}

#[test]
fn a_request_goes_to_the_url_that_the_given_host_stands_for() {
    // What counts is the text that names the host, not what was made of it.
    let host = Validated::from_parts(
        &args("http://localhost:8080/api"),
        Some(("http://elsewhere/".to_string(), "/other".to_string())),
    )
    .unwrap()
    .host;
    let request = RequestSpec {
        method: RequestMethod::GET,
        path: "/a".to_string(),
        body: None,
        headers: vec![],
    }
    .validate()
    .unwrap();
    assert_eq!(request.send(&host).unwrap().url, "http://localhost:8080/api/a");
}

#[test]
fn a_url_takes_a_path_while_its_bytes_can_be_counted_in_32_bits() {
    assert!(fits(0, 0));
    assert!(fits(22, 7));
    assert!(fits(4_294_967_294, 0));
    assert!(!fits(4_294_967_295, 0));
    assert!(fits(0, 1_431_655_764));
    assert!(fits(2, 1_431_655_764));
    assert!(!fits(3, 1_431_655_764));
    assert!(!fits(0, 1_431_655_765));
    assert!(fits(1_294_967_294, 1_000_000_000));
    assert!(!fits(1_294_967_295, 1_000_000_000));
    assert!(!fits(usize::MAX, 0));
    assert!(!fits(0, usize::MAX));
    assert!(!fits(usize::MAX, usize::MAX));
}

#[test]
fn a_line_is_made_of_the_status_it_is_given() {
    let answered =
        RequestResult::new(Elapsed { secs: 0, nanos: 7_000_000 }, Ok(Response { status: 418 }));
    assert_eq!(
        answered.render_with(Some("418 I'm a teapot".to_string())),
        "(Elapsed: 7ms) { status: 418 I'm a teapot }"
    );
    assert_eq!(answered.render_with(None), "(Elapsed: 7ms) { status: 418 }");
    let failed = RequestResult::new(
        Elapsed { secs: 0, nanos: 7_000_000 },
        Err(Failure { message: "timed out".to_string() }),
    );
    assert_eq!(failed.render_with(None), "(Elapsed: 7ms): timed out");
    assert_eq!(failed.render_with(Some("200 OK".to_string())), "(Elapsed: 7ms): timed out");
}

#[test]
fn a_request_that_is_not_sent_fails_with_the_reason() {
    assert_eq!(
        Failure::of_refusal(SendError::Unimplemented(RequestMethod::PUT)).message,
        "not implemented: PUT"
    );
    assert_eq!(
        Failure::of_refusal(SendError::Unimplemented(RequestMethod::OPTIONS)).message,
        "not implemented: OPTIONS"
    );
    assert_eq!(Failure::of_refusal(SendError::InvalidUrl).message, "invalid URL");
}
