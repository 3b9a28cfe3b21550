//! The configured requests: what the configuration file says, and what is
//! left of it once every part has been held to the rules of HTTP.

use vstd::multiset::Multiset;
use vstd::prelude::*;
use vstd::slice::slice_to_vec;
use vstd::utf8::encode_utf8;
use crate::args::{BaseUrl, BaseUrlView};
use crate::outside::{
    check_header_value, header_map_clone, header_map_new, header_map_pairs,
    header_map_try_append, header_name_text, header_value_ok, lengths_fit, parse_header_name,
    parse_path_and_query, parse_url, path_and_query_text, url_fits, url_path_text, url_text,
    url_with_path, url_with_path_text, HEADER_MAP_ROOM,
};
use crate::text::{first_colon, split_at_colon, trim, trimmed};
use crate::views::{given, made};

verus! {

/// Why a configured request is refused.
#[derive(Debug, Copy, Clone, PartialEq, Eq, Structural)]
pub enum ValidationError {
    /// The path is no path of a URL.
    Path,
    /// A header line holds no colon.
    Header,
    /// What stands before the colon of a header line is no header name.
    HeaderName,
    /// What stands after the colon of a header line is no header value.
    HeaderValue,
    /// The request has more headers than `http` holds in one map.
    TooManyHeaders,
}

/// The configured requests, as the configuration file gives them.
#[derive(Debug, Clone)]
pub struct Config {
    pub requests: Vec<RequestSpec>,
}

/// One configured request, as the configuration file gives it.
#[derive(Debug, Clone)]
pub struct RequestSpec {
    pub method: RequestMethod,
    pub path: String,
    pub body: Option<RequestBody>,
    /// The header lines, each a name, a colon and a value.
    pub headers: Vec<String>,
}

/// The HTTP methods that a configured request may name.
#[allow(clippy::upper_case_acronyms)]
#[derive(Debug, Copy, Clone, PartialEq, Eq, Structural)]
pub enum RequestMethod {
    GET,
    POST,
    PUT,
    PATCH,
    HEAD,
    OPTIONS,
    DELETE,
}

/// The body of a configured request.
#[derive(Debug, Clone)]
pub enum RequestBody {
    Json(String),
}

impl RequestBody {
    /// The bytes that are sent as the body: the text, encoded as UTF-8.
    pub open spec fn bytes(&self) -> Seq<u8> {
        match self {
            RequestBody::Json(s) => encode_utf8(s@),
        }
    }

    /// The bytes that are sent as the body.
    pub fn as_bytes(&self) -> (bytes: &[u8])
        ensures
            bytes@ == self.bytes(),
    {
        match self {
            Self::Json(s) => s.as_str().as_bytes(),
        }
    }
}

/// The name and the value of one header, as texts.
#[derive(Debug)]
pub struct Header {
    /// The header's name, in lower case.
    pub name: String,
    /// The header's value.
    pub value: String,
}

impl View for Header {
    type V = (Seq<char>, Seq<char>);

    open spec fn view(&self) -> (Seq<char>, Seq<char>) {
        (self.name@, self.value@)
    }
}

/// The headers of the list as a map holds them: each as often as it is in
/// the list, whatever its place.
pub open spec fn pairs_of(headers: Seq<(Seq<char>, Seq<char>)>) -> Multiset<(Seq<char>, Seq<char>)>
    decreases headers.len(),
{
    if headers.len() == 0 {
        Multiset::empty()
    } else {
        pairs_of(headers.drop_last()).insert(headers.last())
    }
}

/// What a map of headers holds, or why there is none.
pub open spec fn checked_pairs(
    headers: Result<http::HeaderMap<http::HeaderValue>, ValidationError>,
) -> Result<Multiset<(Seq<char>, Seq<char>)>, ValidationError> {
    match headers {
        Ok(map) => Ok(header_map_pairs(map)),
        Err(error) => Err(error),
    }
}

/// A request as the contracts see it.
pub struct RequestView {
    pub method: RequestMethod,
    pub path: Seq<char>,
    pub body: Option<Seq<u8>>,
    /// The headers, each as often as it was configured: a header whose
    /// name has come before is held beside the earlier one, and replaces
    /// none.
    pub headers: Multiset<(Seq<char>, Seq<char>)>,
}

/// A request of which every part has been checked, ready to be sent any
/// number of times.
#[derive(Debug)]
pub struct ValidatedRequest {
    method: RequestMethod,
    path: String,
    body: Option<Vec<u8>>,
    headers: http::HeaderMap<http::HeaderValue>,
}

impl View for ValidatedRequest {
    type V = RequestView;

    closed spec fn view(&self) -> RequestView {
        RequestView {
            method: self.method,
            path: self.path@,
            body: given(self.body),
            headers: header_map_pairs(self.headers),
        }
    }
}

impl RequestMethod {
    /// The method's name as it stands in a request.
    pub open spec fn name(self) -> Seq<char> {
        match self {
            RequestMethod::GET => "GET"@,
            RequestMethod::POST => "POST"@,
            RequestMethod::PUT => "PUT"@,
            RequestMethod::PATCH => "PATCH"@,
            RequestMethod::HEAD => "HEAD"@,
            RequestMethod::OPTIONS => "OPTIONS"@,
            RequestMethod::DELETE => "DELETE"@,
        }
    }

    /// The method's name as it stands in a request.
    pub fn as_str(self) -> (name: &'static str)
        ensures
            name@ == self.name(),
    {
        match self {
            RequestMethod::GET => "GET",
            RequestMethod::POST => "POST",
            RequestMethod::PUT => "PUT",
            RequestMethod::PATCH => "PATCH",
            RequestMethod::HEAD => "HEAD",
            RequestMethod::OPTIONS => "OPTIONS",
            RequestMethod::DELETE => "DELETE",
        }
    }
}

/// A copy of the bytes.
fn clone_bytes(bytes: &Vec<u8>) -> (copy: Vec<u8>)
    ensures
        copy@ == bytes@,
{
    slice_to_vec(bytes.as_slice())
}

impl Clone for ValidatedRequest {
    fn clone(&self) -> (copy: Self)
        ensures
            copy@ == self@,
    {
        ValidatedRequest {
            method: self.method,
            path: self.path.clone(),
            body: match &self.body {
                Some(bytes) => Some(clone_bytes(bytes)),
                None => None,
            },
            headers: header_map_clone(&self.headers),
        }
    }
}

/// What a header line stands for: the name before its first colon and the
/// value after it, each without the white space at its ends, the name as
/// `http` keeps it. A line without a colon is refused, then a name and
/// then a value that `http` does not take.
pub open spec fn header_of(line: Seq<char>) -> Result<(Seq<char>, Seq<char>), ValidationError> {
    let colon = first_colon(line, 0);
    if colon >= line.len() {
        Err(ValidationError::Header)
    } else {
        let value = trimmed(line.subrange(colon + 1, line.len() as int));
        Header::of_parts(
            header_name_text(trimmed(line.subrange(0, colon))),
            value,
            header_value_ok(value),
        )
    }
}

/// What the header lines stand for, in their order; or why the first line
/// that is refused is refused.
pub open spec fn headers_of(lines: Seq<Seq<char>>) -> Result<
    Seq<(Seq<char>, Seq<char>)>,
    ValidationError,
>
    decreases lines.len(),
{
    if lines.len() == 0 {
        Ok(Seq::empty())
    } else {
        match headers_of(lines.drop_last()) {
            Err(error) => Err(error),
            Ok(headers) => match header_of(lines.last()) {
                Err(error) => Err(error),
                Ok(header) => Ok(headers.push(header)),
            },
        }
    }
}

/// The requests that the configured ones stand for, in their order; or why
/// the first one that is refused is refused.
pub open spec fn validated_all(specs: Seq<RequestSpec>) -> Result<Seq<RequestView>, ValidationError>
    decreases specs.len(),
{
    if specs.len() == 0 {
        Ok(Seq::empty())
    } else {
        match validated_all(specs.drop_last()) {
            Err(error) => Err(error),
            Ok(requests) => match specs.last().validated() {
                Err(error) => Err(error),
                Ok(request) => Ok(requests.push(request)),
            },
        }
    }
}

impl Header {
    /// What a header line stands for, given what `http` made of the name
    /// before its colon (`None` if it refused it) and whether it takes the
    /// value after the colon: the name is looked at first.
    pub open spec fn of_parts(name: Option<Seq<char>>, value: Seq<char>, value_taken: bool) -> Result<
        (Seq<char>, Seq<char>),
        ValidationError,
    > {
        match name {
            None => Err(ValidationError::HeaderName),
            Some(name) => if value_taken {
                Ok((name, value))
            } else {
                Err(ValidationError::HeaderValue)
            },
        }
    }

    /// Makes a header of a name and a value that `http` has looked at.
    /// `name` is what it made of the name, `None` if it refused it;
    /// `value_taken` says whether it takes the value. A refused name
    /// counts before a refused value.
    pub fn from_parts(name: Option<String>, value: &str, value_taken: bool) -> (header: Result<
        Header,
        ValidationError,
    >)
        ensures
            made(header) == Header::of_parts(given(name), value@, value_taken),
    {
        match name {
            None => Err(ValidationError::HeaderName),
            Some(name) => {
                if value_taken {
                    Ok(Header { name, value: String::from_str(value) })
                } else {
                    Err(ValidationError::HeaderValue)
                }
            },
        }
    }
}

/// Reads one header line: gives the text of the name and the text of the
/// value, each without the white space at its ends, where the line stands
/// for a header.
fn read_header(line: &str) -> (parts: Result<(&str, &str), ValidationError>)
    ensures
        match parts {
            Ok((name, value)) => {
                &&& header_name_text(name@) is Some
                &&& header_value_ok(value@)
                &&& header_of(line@) == Ok::<(Seq<char>, Seq<char>), ValidationError>(
                    (header_name_text(name@)->0, value@),
                )
            },
            Err(error) => header_of(line@) == Err::<(Seq<char>, Seq<char>), ValidationError>(
                error,
            ),
        },
{
    let (before, after) = match split_at_colon(line) {
        Some(parts) => parts,
        None => {
            return Err(ValidationError::Header);
        },
    };
    let name = trim(before);
    let value = trim(after);
    let name_taken = match parse_header_name(name) {
        Ok(name) => Some(name),
        Err(_) => None,
    };
    let value_taken = match check_header_value(value) {
        Ok(_) => true,
        Err(_) => false,
    };
    match Header::from_parts(name_taken, value, value_taken) {
        Ok(_) => Ok((name, value)),
        Err(error) => Err(error),
    }
}

impl RequestSpec {
    /// The header lines as texts.
    pub open spec fn lines(&self) -> Seq<Seq<char>> {
        self.headers@.map_values(|line: String| line@)
    }

    /// The request that this one stands for; or why it is refused. The
    /// path is looked at first, then the header lines in their order.
    pub open spec fn validated(&self) -> Result<RequestView, ValidationError> {
        RequestView::of_parts(
            self.method,
            path_and_query_text(self.path@),
            match self.body {
                Some(body) => Some(body.bytes()),
                None => None,
            },
            match headers_of(self.lines()) {
                Ok(headers) => Ok(pairs_of(headers)),
                Err(error) => Err(error),
            },
        )
    }

    /// Reads the header lines in their order, up to the first one that is
    /// refused, and puts the headers into a map. Where the map takes no
    /// more, which it does only when it holds `HEADER_MAP_ROOM` headers or
    /// more, there are too many headers.
    fn check_headers(&self) -> (checked: Result<
        http::HeaderMap<http::HeaderValue>,
        ValidationError,
    >)
        ensures
            checked matches Ok(map) ==> headers_of(self.lines()) matches Ok(headers)
                && header_map_pairs(map) == pairs_of(headers),
            checked matches Err(error) ==> headers_of(self.lines()) == Err::<
                Seq<(Seq<char>, Seq<char>)>,
                ValidationError,
            >(error) || (error == ValidationError::TooManyHeaders && !self.fits_a_map()),
    {
        broadcast use vstd::multiset::group_multiset_axioms;

        let mut map = header_map_new();
        let mut i: usize = 0;
        assert(self.lines().take(0) =~= Seq::empty());
        while i < self.headers.len()
            invariant
                i <= self.headers.len(),
                headers_of(self.lines().take(i as int)) matches Ok(headers) && header_map_pairs(map)
                    == pairs_of(headers),
                header_map_pairs(map).len() == i,
            decreases self.headers.len() - i,
        {
            let ghost seen = self.lines().take(i + 1);
            assert(seen.drop_last() =~= self.lines().take(i as int));
            assert(seen.last() == self.headers@[i as int]@);
            let ghost so_far = headers_of(self.lines().take(i as int))->Ok_0;
            match read_header(self.headers[i].as_str()) {
                Ok((name, value)) => {
                    if !header_map_try_append(&mut map, name, value) {
                        return Err(ValidationError::TooManyHeaders);
                    }
                    assert(so_far.push((header_name_text(name@)->0, value@)).drop_last()
                        =~= so_far);
                },
                Err(error) => {
                    proof {
                        lemma_refused_stays_refused(self.lines(), i + 1);
                    }
                    return Err(error);
                },
            }
            i += 1;
        }
        assert(self.lines().take(i as int) =~= self.lines());
        Ok(map)
    }

    /// Checks every part of the request, and makes it ready to be sent.
    fn check(&self) -> (checked: Result<ValidatedRequest, ValidationError>)
        ensures
            self.fits_a_map() ==> made(checked) == self.validated(),
            checked matches Ok(request) ==> self.validated() == Ok::<RequestView, ValidationError>(
                request@,
            ),
            checked matches Err(error) ==> self.validated() == Err::<RequestView, ValidationError>(
                error,
            ) || (error == ValidationError::TooManyHeaders && !self.fits_a_map()),
    {
        let path = match parse_path_and_query(self.path.as_str()) {
            Ok(path) => Some(path),
            Err(_) => None,
        };
        let body = match &self.body {
            Some(body) => Some(slice_to_vec(body.as_bytes())),
            None => None,
        };
        ValidatedRequest::from_parts(self.method, path, body, self.check_headers())
    }

    /// Whether the request has no more header lines than a map of `http`
    /// is sure to take.
    pub open spec fn fits_a_map(&self) -> bool {
        self.headers@.len() <= HEADER_MAP_ROOM
    }

    /// Checks every part of the request, and makes it ready to be sent. The
    /// request is refused for its path, if `http` takes that for no path,
    /// else for the first header line that is no header. A request with
    /// more than `HEADER_MAP_ROOM` header lines may be refused for having
    /// too many, if `http` takes no more.
    pub fn validate(self) -> (checked: Result<ValidatedRequest, ValidationError>)
        ensures
            self.fits_a_map() ==> made(checked) == self.validated(),
            checked matches Ok(request) ==> self.validated() == Ok::<RequestView, ValidationError>(
                request@,
            ),
            checked matches Err(error) ==> self.validated() == Err::<RequestView, ValidationError>(
                error,
            ) || (error == ValidationError::TooManyHeaders && !self.fits_a_map()),
    {
        self.check()
    }
}

/// Header lines of which some first ones are refused are refused for the
/// same reason.
proof fn lemma_refused_stays_refused(lines: Seq<Seq<char>>, some: int)
    requires
        0 <= some <= lines.len(),
        headers_of(lines.take(some)) is Err,
    ensures
        headers_of(lines) == headers_of(lines.take(some)),
    decreases lines.len(),
{
    if some < lines.len() {
        assert(lines.drop_last().take(some) =~= lines.take(some));
        lemma_refused_stays_refused(lines.drop_last(), some);
    } else {
        assert(lines.take(some) =~= lines);
    }
}

/// Configured requests of which some first ones are refused are refused
/// for the same reason.
proof fn lemma_refusal_stays(specs: Seq<RequestSpec>, some: int)
    requires
        0 <= some <= specs.len(),
        validated_all(specs.take(some)) is Err,
    ensures
        validated_all(specs) == validated_all(specs.take(some)),
    decreases specs.len(),
{
    if some < specs.len() {
        assert(specs.drop_last().take(some) =~= specs.take(some));
        lemma_refusal_stays(specs.drop_last(), some);
    } else {
        assert(specs.take(some) =~= specs);
    }
}

/// The views of a list of requests, in the same order.
pub open spec fn request_views(requests: Seq<ValidatedRequest>) -> Seq<RequestView> {
    requests.map_values(|r: ValidatedRequest| r@)
}

/// Whether each of the requests fits a map.
pub open spec fn all_fit_a_map(specs: Seq<RequestSpec>) -> bool {
    forall|i: int| 0 <= i < specs.len() ==> (#[trigger] specs[i]).fits_a_map()
}

impl Config {
    /// Checks the configured requests in their order, and makes them ready
    /// to be sent. The first request that is refused decides the error. A
    /// request with more than `HEADER_MAP_ROOM` header lines may be refused
    /// for having too many.
    pub fn validate(self) -> (checked: Result<Validated, ValidationError>)
        ensures
            all_fit_a_map(self.requests@) ==> made(checked) == validated_all(self.requests@),
            checked matches Ok(validated) ==> validated_all(self.requests@) == Ok::<
                Seq<RequestView>,
                ValidationError,
            >(validated@),
            checked matches Err(error) ==> validated_all(self.requests@) == Err::<
                Seq<RequestView>,
                ValidationError,
            >(error) || (error == ValidationError::TooManyHeaders && !all_fit_a_map(
                self.requests@,
            )),
    {
        let mut result: Vec<ValidatedRequest> = Vec::new();
        let mut i: usize = 0;
        assert(self.requests@.take(0) =~= Seq::empty());
        assert(request_views(result@) =~= Seq::empty());
        while i < self.requests.len()
            invariant
                i <= self.requests.len(),
                validated_all(self.requests@.take(i as int)) == Ok::<
                    Seq<RequestView>,
                    ValidationError,
                >(request_views(result@)),
            decreases self.requests.len() - i,
        {
            let ghost seen = self.requests@.take(i + 1);
            assert(seen.drop_last() =~= self.requests@.take(i as int));
            assert(seen.last() == self.requests@[i as int]);
            match self.requests[i].check() {
                Ok(request) => {
                    assert(request_views(result@.push(request)) =~= request_views(result@).push(
                        request@,
                    ));
                    result.push(request);
                },
                Err(error) => {
                    proof {
                        if self.requests@[i as int].validated() == Err::<
                            RequestView,
                            ValidationError,
                        >(error) {
                            lemma_refusal_stays(self.requests@, i + 1);
                        }
                    }
                    return Err(error);
                },
            }
            i += 1;
        }
        assert(self.requests@.take(i as int) =~= self.requests@);
        Ok(Validated { requests: result })
    }
}

/// The requests that are ready to be sent, in the order in which they were
/// configured.
#[derive(Debug, Clone)]
pub struct Validated {
    requests: Vec<ValidatedRequest>,
}

impl View for Validated {
    type V = Seq<RequestView>;

    closed spec fn view(&self) -> Seq<RequestView> {
        request_views(self.requests@)
    }
}

impl Validated {
    /// The requests themselves.
    pub closed spec fn items(&self) -> Seq<ValidatedRequest> {
        self.requests@
    }

    /// The requests, in the order in which they were configured.
    pub fn requests(&self) -> (requests: &[ValidatedRequest])
        ensures
            requests@ == self.items(),
            request_views(requests@) == self@,
    {
        self.requests.as_slice()
    }

    /// How many requests a run submits that is asked for `num_requests`
    /// of them: that many, or none where no request is configured.
    pub fn turns(&self, num_requests: u32) -> (count: u32)
        ensures
            count == if self.items().len() == 0 {
                0
            } else {
                num_requests
            },
    {
        if self.requests.len() == 0 {
            0
        } else {
            num_requests
        }
    }

    /// The request that is submitted in the given turn, the first turn
    /// being turn 0: the requests take turns in their order, and after the
    /// last one the first one is next. `None` if there is no request.
    pub fn request_at(&self, turn: usize) -> (request: Option<&ValidatedRequest>)
        ensures
            match request {
                Some(r) => self.items().len() > 0 && *r == self.items()[turn as int
                    % self.items().len() as int],
                None => self.items().len() == 0,
            },
    {
        if self.requests.len() == 0 {
            None
        } else {
            Some(&self.requests[turn % self.requests.len()])
        }
    }
}

/// The call that sends a request, as the contracts see it.
pub struct OutgoingView {
    pub method: RequestMethod,
    pub url: Seq<char>,
    pub headers: Multiset<(Seq<char>, Seq<char>)>,
    pub body: Option<Seq<u8>>,
}

/// The call that sends a request: all that is handed to the transport.
#[derive(Debug)]
pub struct Outgoing {
    pub method: RequestMethod,
    /// The URL that the request goes to.
    pub url: String,
    pub headers: http::HeaderMap<http::HeaderValue>,
    pub body: Option<Vec<u8>>,
}

impl View for Outgoing {
    type V = OutgoingView;

    open spec fn view(&self) -> OutgoingView {
        OutgoingView {
            method: self.method,
            url: self.url@,
            headers: header_map_pairs(self.headers),
            body: given(self.body),
        }
    }
}

/// Why a request cannot be sent.
#[derive(Debug, Copy, Clone, PartialEq, Eq, Structural)]
pub enum SendError {
    /// Requests with this method are not sent.
    Unimplemented(RequestMethod),
    /// The host and the path make no URL.
    InvalidUrl,
}

/// Whether a request with the given path has a URL to go to below the
/// host that the text names: `url` takes the text for a URL, and that URL
/// can take the host's path with the request's path behind it.
pub open spec fn reaches(source: Seq<char>, path: Seq<char>) -> bool {
    match (url_text(source), url_path_text(source)) {
        (Some(text), Some(base_path)) => url_fits(text, base_path + path),
        _ => false,
    }
}

/// The URL that a request with the given path goes to below the host that
/// the text names: the host's URL with the request's path, query and all,
/// put behind its own path and handed to `url` as the new path. `None`
/// where the request has no URL to go to.
pub open spec fn target_url(source: Seq<char>, path: Seq<char>) -> Option<Seq<char>> {
    if reaches(source, path) {
        url_with_path_text(source, url_path_text(source)->0 + path)
    } else {
        None
    }
}

/// Whether a URL of `text_bytes` bytes can take a new path that is given
/// in `path_bytes` bytes.
pub fn fits(text_bytes: usize, path_bytes: usize) -> (ok: bool)
    ensures
        ok == lengths_fit(text_bytes as nat, path_bytes as nat),
{
    path_bytes <= 1_431_655_764 && text_bytes <= 4_294_967_294 - 3 * path_bytes
}

impl RequestView {
    /// The request made of the parts, or why it is refused: for its path,
    /// if that is `None`, else for its headers, if they are refused.
    pub open spec fn of_parts(
        method: RequestMethod,
        path: Option<Seq<char>>,
        body: Option<Seq<u8>>,
        headers: Result<Multiset<(Seq<char>, Seq<char>)>, ValidationError>,
    ) -> Result<RequestView, ValidationError> {
        match path {
            None => Err(ValidationError::Path),
            Some(path) => match headers {
                Err(error) => Err(error),
                Ok(headers) => Ok(RequestView { method, path, body, headers }),
            },
        }
    }

    /// The call that sends this request to the given URL; `None` stands
    /// for a URL that cannot be formed. A `GET` goes out bare, a `POST`
    /// with the request's headers and body. No other method is sent.
    pub open spec fn sent_to(self, url: Option<Seq<char>>) -> Result<OutgoingView, SendError> {
        if self.method != RequestMethod::GET && self.method != RequestMethod::POST {
            Err(SendError::Unimplemented(self.method))
        } else {
            match url {
                None => Err(SendError::InvalidUrl),
                Some(url) => Ok(
                    if self.method == RequestMethod::GET {
                        OutgoingView {
                            method: self.method,
                            url,
                            headers: Multiset::empty(),
                            body: None,
                        }
                    } else {
                        OutgoingView {
                            method: self.method,
                            url,
                            headers: self.headers,
                            body: self.body,
                        }
                    },
                ),
            }
        }
    }

    /// The call that sends this request below the given host.
    pub open spec fn sent(self, base: BaseUrlView) -> Result<OutgoingView, SendError> {
        self.sent_to(target_url(base.source, self.path))
    }
}

impl ValidatedRequest {
    /// Makes a request of parts that have been looked at. `path` is the
    /// path as `http` writes it, `None` if it refused it; `headers` are the
    /// headers in the map of `http`, or why they are refused. A refused
    /// path counts before refused headers.
    pub fn from_parts(
        method: RequestMethod,
        path: Option<String>,
        body: Option<Vec<u8>>,
        headers: Result<http::HeaderMap<http::HeaderValue>, ValidationError>,
    ) -> (request: Result<ValidatedRequest, ValidationError>)
        ensures
            made(request) == RequestView::of_parts(
                method,
                given(path),
                given(body),
                checked_pairs(headers),
            ),
    {
        let path = match path {
            Some(path) => path,
            None => {
                return Err(ValidationError::Path);
            },
        };
        match headers {
            Ok(headers) => Ok(ValidatedRequest { method, path, body, headers }),
            Err(error) => Err(error),
        }
    }

    /// Makes the call that sends this request to `url`; `None` stands for
    /// a URL that cannot be formed. A request with another method than
    /// `GET` or `POST` is refused, whatever the URL; a `GET` goes out
    /// without headers and body.
    pub fn outgoing(self, url: Option<String>) -> (call: Result<Outgoing, SendError>)
        ensures
            made(call) == self@.sent_to(given(url)),
    {
        match self.method {
            RequestMethod::GET | RequestMethod::POST => {},
            _ => {
                return Err(SendError::Unimplemented(self.method));
            },
        }
        let url = match url {
            Some(url) => url,
            None => {
                return Err(SendError::InvalidUrl);
            },
        };
        match self.method {
            RequestMethod::GET => {
                Ok(Outgoing { method: self.method, url, headers: header_map_new(), body: None })
            },
            _ => Ok(Outgoing { method: self.method, url, headers: self.headers, body: self.body }),
        }
    }

    /// The URL that this request goes to below `base_url`: the host's URL
    /// with the request's path put behind its own. There is one exactly
    /// where the request has a URL to go to.
    fn target(&self, base_url: &BaseUrl) -> (url: Option<String>)
        ensures
            given(url) == target_url(base_url@.source, self@.path),
            url is Some <==> reaches(base_url@.source, self@.path),
    {
        let (text, mut new_path) = match parse_url(base_url.source()) {
            Some(parts) => parts,
            None => {
                return None;
            },
        };
        new_path.append(self.path.as_str());
        if !fits(text.as_str().as_bytes().len(), new_path.as_str().as_bytes().len()) {
            return None;
        }
        url_with_path(base_url.source(), new_path.as_str())
    }

    /// Makes the call that sends this request below `base_url`; to make it
    /// is left to the caller. A request with another method than `GET` or
    /// `POST` is refused. One of these is refused exactly if it has no URL
    /// to go to: below a host that `Args::validate` has taken, that is a
    /// request whose path is too long for a URL.
    pub fn send(self, base_url: &BaseUrl) -> (call: Result<Outgoing, SendError>)
        ensures
            made(call) == self@.sent(base_url@),
            call matches Err(SendError::InvalidUrl) <==> (self@.method == RequestMethod::GET
                || self@.method == RequestMethod::POST) && !reaches(
                base_url@.source,
                self@.path,
            ),
    {
        let url = match self.method {
            RequestMethod::GET | RequestMethod::POST => self.target(base_url),
            _ => None,
        };
        self.outgoing(url)
    }
}

} // verus!
