//! Minimal HTTP/1.1 framing for one request and one response per connection:
//! a request is serialised as request line, headers, blank line and raw body;
//! a response is read to the end of the stream and split into status line,
//! headers and body.
use vstd::prelude::*;
use vstd::string::StringSliceAdditionalSpecFns;

verus! {

/// The parts of a URI that the transport uses, as bytes.
pub struct UriView {
    pub authority: Option<Seq<u8>>,
    pub host: Option<Seq<u8>>,
    pub port: Option<u16>,
    pub path_and_query: Option<Seq<u8>>,
}

/// What the `http` crate's URI parser makes of the given bytes, `None` when it
/// rejects them.
pub uninterp spec fn uri_parts(s: Seq<u8>) -> Option<UriView>;

/// The parts of a parsed URI.
pub struct UriParts {
    pub authority: Option<Vec<u8>>,
    pub host: Option<Vec<u8>>,
    pub port: Option<u16>,
    pub path_and_query: Option<Vec<u8>>,
}

pub open spec fn opt_bytes(o: Option<Vec<u8>>) -> Option<Seq<u8>> {
    match o {
        Some(v) => Some(v@),
        None => None,
    }
}

impl View for UriParts {
    type V = UriView;

    open spec fn view(&self) -> UriView {
        UriView {
            authority: opt_bytes(self.authority),
            host: opt_bytes(self.host),
            port: self.port,
            path_and_query: opt_bytes(self.path_and_query),
        }
    }
}

/// Relies on `http::Uri::try_from(&[u8])` and the accessors `authority`,
/// `host`, `port_u16` and `path_and_query` of the parsed URI.
#[verifier::external_body]
fn parse_uri(s: &[u8]) -> (r: Option<UriParts>)
    ensures
        match r {
            Some(p) => uri_parts(s@) == Some(p@),
            None => uri_parts(s@) is None,
        },
{
    let uri = http::Uri::try_from(s).ok()?;
    Some(UriParts {
        authority: uri.authority().map(|a| a.as_str().as_bytes().to_vec()),
        host: uri.host().map(|h| h.as_bytes().to_vec()),
        port: uri.port_u16(),
        path_and_query: uri.path_and_query().map(|p| p.as_str().as_bytes().to_vec()),
    })
}

/// Errors of the framing layer.
#[derive(PartialEq, Eq, Structural, Debug, Clone, Copy)]
pub enum WireError {
    /// The URI does not parse.
    InvalidUri,
    /// The URI names no host.
    NoHost,
    /// The URI's host is empty.
    EmptyHost,
    /// The stream ended before the response head was complete.
    Incomplete,
    /// The response head is not valid HTTP.
    Malformed,
    /// The status code is outside `100..=999`.
    InvalidStatus,
}

/// One header line.
pub struct Header {
    pub name: Vec<u8>,
    pub value: Vec<u8>,
}

pub open spec fn header_view(h: Header) -> (Seq<u8>, Seq<u8>) {
    (h.name@, h.value@)
}

pub open spec fn headers_view(hs: Seq<Header>) -> Seq<(Seq<u8>, Seq<u8>)> {
    hs.map_values(|h: Header| header_view(h))
}

/// A request to be sent on a fresh connection.
pub struct HttpRequest {
    pub method: Vec<u8>,
    pub uri: UriParts,
    pub headers: Vec<Header>,
    pub body: Vec<u8>,
}

pub struct RequestView {
    pub method: Seq<u8>,
    pub uri: UriView,
    pub headers: Seq<(Seq<u8>, Seq<u8>)>,
    pub body: Seq<u8>,
}

impl View for HttpRequest {
    type V = RequestView;

    open spec fn view(&self) -> RequestView {
        RequestView {
            method: self.method@,
            uri: self.uri@,
            headers: headers_view(self.headers@),
            body: self.body@,
        }
    }
}

pub open spec fn crlf() -> Seq<u8> {
    seq![13u8, 10u8]
}

/// `HTTP/1.1`
pub open spec fn http11() -> Seq<u8> {
    seq![72u8, 84, 84, 80, 47, 49, 46, 49]
}

/// The request target: the path and query, `/` when the URI has none.
pub open spec fn request_target(u: UriView) -> Seq<u8> {
    match u.path_and_query {
        Some(p) => p,
        None => seq![47u8],
    }
}

/// `name: value` and a line break for each header, in order.
pub open spec fn header_lines(hs: Seq<(Seq<u8>, Seq<u8>)>) -> Seq<u8>
    decreases hs.len(),
{
    if hs.len() == 0 {
        Seq::empty()
    } else {
        header_lines(hs.drop_last()) + hs.last().0 + seq![58u8, 32u8] + hs.last().1 + crlf()
    }
}

/// The bytes of a request: request line, header lines, blank line, body.
pub open spec fn request_bytes(r: RequestView) -> Seq<u8> {
    r.method + seq![32u8] + request_target(r.uri) + seq![32u8] + http11() + crlf()
        + header_lines(r.headers) + crlf() + r.body
}

pub(crate) fn push_all(out: &mut Vec<u8>, s: &[u8])
    ensures
        final(out)@ == old(out)@ + s@,
{
    let mut i: usize = 0;
    while i < s.len()
        invariant
            0 <= i <= s@.len(),
            out@ == old(out)@ + s@.subrange(0, i as int),
        decreases s@.len() - i,
    {
        out.push(s[i]);
        assert(s@.subrange(0, i + 1) =~= s@.subrange(0, i as int).push(s@[i as int]));
        i += 1;
    }
    assert(s@.subrange(0, s@.len() as int) =~= s@);
}

/// Serialises `req` for the wire.
pub fn assemble_http_request(req: &HttpRequest) -> (r: Vec<u8>)
    ensures
        r@ == request_bytes(req@),
{
    let mut out: Vec<u8> = Vec::new();
    push_all(&mut out, req.method.as_slice());
    out.push(32u8);
    match &req.uri.path_and_query {
        Some(p) => push_all(&mut out, p.as_slice()),
        None => out.push(47u8),
    }
    out.push(32u8);
    push_all(&mut out, &[72u8, 84, 84, 80, 47, 49, 46, 49]);
    out.push(13u8);
    out.push(10u8);
    let ghost line = out@;
    assert(line =~= req@.method + seq![32u8] + request_target(req@.uri) + seq![32u8] + http11() + crlf());
    let mut i: usize = 0;
    while i < req.headers.len()
        invariant
            0 <= i <= req.headers@.len(),
            out@ == line + header_lines(headers_view(req.headers@.subrange(0, i as int))),
        decreases req.headers@.len() - i,
    {
        let h = &req.headers[i];
        push_all(&mut out, h.name.as_slice());
        out.push(58u8);
        out.push(32u8);
        push_all(&mut out, h.value.as_slice());
        out.push(13u8);
        out.push(10u8);
        let ghost next = headers_view(req.headers@.subrange(0, i + 1));
        assert(next.drop_last() =~= headers_view(req.headers@.subrange(0, i as int)));
        assert(next.last() == header_view(req.headers@[i as int]));
        i += 1;
    }
    assert(req.headers@.subrange(0, req.headers@.len() as int) =~= req.headers@);
    out.push(13u8);
    out.push(10u8);
    push_all(&mut out, req.body.as_slice());
    assert(out@ =~= request_bytes(req@));
    out
}

/// The host named by an authority: what follows its first `@`, or the whole
/// authority when it holds none.
pub open spec fn host_of_authority(a: Seq<u8>) -> Seq<u8> {
    if exists|i: int| 0 <= i < a.len() && a[i] == 64u8 {
        let i = choose|i: int| 0 <= i < a.len() && a[i] == 64u8 && forall|j: int| 0 <= j < i ==> a[j] != 64u8;
        a.subrange(i + 1, a.len() as int)
    } else {
        a
    }
}

fn host_of(a: &Vec<u8>) -> (r: Vec<u8>)
    ensures
        r@ == host_of_authority(a@),
{
    let mut i: usize = 0;
    while i < a.len()
        invariant
            0 <= i <= a@.len(),
            forall|j: int| 0 <= j < i ==> a@[j] != 64u8,
        decreases a@.len() - i,
    {
        if a[i] == 64u8 {
            let mut r: Vec<u8> = Vec::new();
            let mut k: usize = i + 1;
            while k < a.len()
                invariant
                    i < k <= a@.len(),
                    r@ == a@.subrange(i + 1, k as int),
                decreases a@.len() - k,
            {
                r.push(a[k]);
                assert(a@.subrange(i + 1, k + 1) =~= a@.subrange(i + 1, k as int).push(a@[k as int]));
                k += 1;
            }
            proof {
                let k = choose|k: int| 0 <= k < a@.len() && a@[k] == 64u8 && forall|j: int| 0 <= j < k ==> a@[j] != 64u8;
                assert(k == i);
            }
            return r;
        }
        i += 1;
    }
    a.clone()
}

/// `host`, `connection`, `accept-encoding`
pub open spec fn host_name() -> Seq<u8> {
    seq![104u8, 111, 115, 116]
}

pub open spec fn connection_name() -> Seq<u8> {
    seq![99u8, 111, 110, 110, 101, 99, 116, 105, 111, 110]
}

/// `close`
pub open spec fn close_value() -> Seq<u8> {
    seq![99u8, 108, 111, 115, 101]
}

pub open spec fn accept_encoding_name() -> Seq<u8> {
    seq![97u8, 99, 99, 101, 112, 116, 45, 101, 110, 99, 111, 100, 105, 110, 103]
}

/// `identity`
pub open spec fn identity_value() -> Seq<u8> {
    seq![105u8, 100, 101, 110, 116, 105, 116, 121]
}

/// The headers every request starts with: the host, no connection reuse, no
/// content encoding.
pub open spec fn base_headers(host: Seq<u8>) -> Seq<(Seq<u8>, Seq<u8>)> {
    seq![(host_name(), host), (connection_name(), close_value()), (accept_encoding_name(), identity_value())]
}

/// What building a request for `uri` with `method` gives.
pub open spec fn build_result(uri: Seq<u8>, method: Seq<u8>) -> Result<RequestView, WireError> {
    match uri_parts(uri) {
        None => Err(WireError::InvalidUri),
        Some(u) => match u.authority {
            None => Err(WireError::NoHost),
            Some(a) => if host_of_authority(a).len() == 0 {
                Err(WireError::EmptyHost)
            } else {
                Ok(RequestView { method, uri: u, headers: base_headers(host_of_authority(a)), body: Seq::empty() })
            },
        },
    }
}

pub open spec fn request_matches(r: Result<HttpRequest, WireError>, s: Result<RequestView, WireError>) -> bool {
    match r {
        Ok(req) => s == Ok::<RequestView, WireError>(req@),
        Err(e) => s == Err::<RequestView, WireError>(e),
    }
}

pub(crate) fn header(name: &[u8], value: Vec<u8>) -> (h: Header)
    ensures
        h.name@ == name@,
        h.value@ == value@,
{
    let mut n: Vec<u8> = Vec::new();
    push_all(&mut n, name);
    Header { name: n, value }
}

pub(crate) fn build_request(uri: &[u8], method: &[u8]) -> (r: Result<HttpRequest, WireError>)
    ensures
        request_matches(r, build_result(uri@, method@)),
{
    let parts = match parse_uri(uri) {
        Some(p) => p,
        None => return Err(WireError::InvalidUri),
    };
    let host = match &parts.authority {
        Some(a) => host_of(a),
        None => return Err(WireError::NoHost),
    };
    if host.len() == 0 {
        return Err(WireError::EmptyHost);
    }
    let ghost host_view = host@;
    let mut m: Vec<u8> = Vec::new();
    push_all(&mut m, method);
    let mut headers: Vec<Header> = Vec::new();
    headers.push(header(&[104u8, 111, 115, 116], host));
    headers.push(header(&[99u8, 111, 110, 110, 101, 99, 116, 105, 111, 110], vec![99u8, 108, 111, 115, 101]));
    headers.push(header(&[97u8, 99, 99, 101, 112, 116, 45, 101, 110, 99, 111, 100, 105, 110, 103], vec![105u8, 100, 101, 110, 116, 105, 116, 121]));
    let req = HttpRequest { method: m, uri: parts, headers, body: Vec::new() };
    assert(req@.headers =~= base_headers(host_view));
    Ok(req)
}

/// A request for `uri` carrying the base headers and no body. Fails when the
/// URI does not parse, names no host, or its host is empty.
pub fn basic_request_builder(uri: &str, method: &str) -> (r: Result<HttpRequest, WireError>)
    ensures
        request_matches(r, build_result(uri.spec_bytes(), method.spec_bytes())),
{
    build_request(uri.as_bytes(), method.as_bytes())
}

/// Where to connect for `uri`: its host, and its port or the scheme's default
/// one (443 with TLS, 80 without).
pub fn connect_target(uri: &UriParts, tls: bool) -> (r: Result<(Vec<u8>, u16), WireError>)
    ensures
        match uri@.host {
            None => r == Err::<(Vec<u8>, u16), WireError>(WireError::NoHost),
            Some(h) => r matches Ok((host, port)) && host@ == h && port == match uri@.port {
                Some(p) => p,
                None => if tls { 443u16 } else { 80u16 },
            },
        },
{
    match &uri.host {
        None => Err(WireError::NoHost),
        Some(h) => {
            let port = match uri.port {
                Some(p) => p,
                None => if tls { 443u16 } else { 80u16 },
            };
            Ok((h.clone(), port))
        },
    }
}

/// What the head parser makes of a response.
pub enum HeadView {
    Complete { version: Option<u8>, code: Option<u16>, headers: Seq<(Seq<u8>, Seq<u8>)>, body_start: nat },
    Partial,
    Invalid,
}

/// What `httparse` makes of the bytes of a response, with room for 64
/// headers.
pub uninterp spec fn response_head(b: Seq<u8>) -> HeadView;

/// A parsed response head.
pub enum HeadParse {
    /// The head is complete; the body starts at byte `body_start`.
    Complete { version: Option<u8>, code: Option<u16>, headers: Vec<Header>, body_start: usize },
    /// The bytes end inside the head.
    Partial,
    /// The bytes are not an HTTP response head.
    Invalid,
}

impl View for HeadParse {
    type V = HeadView;

    open spec fn view(&self) -> HeadView {
        match *self {
            HeadParse::Complete { version, code, headers, body_start } => HeadView::Complete {
                version,
                code,
                headers: headers_view(headers@),
                body_start: body_start as nat,
            },
            HeadParse::Partial => HeadView::Partial,
            HeadParse::Invalid => HeadView::Invalid,
        }
    }
}

/// Relies on `httparse::Response::parse` over 64 header slots: `Complete(n)`
/// holds the number of bytes of the head, at most the input's length, and
/// the version, code and headers it read; `Partial` when the input ends
/// inside the head; an error otherwise.
#[verifier::external_body]
fn parse_response_head(bytes: &[u8]) -> (r: HeadParse)
    ensures
        r@ == response_head(bytes@),
        r matches HeadParse::Complete { body_start, .. } ==> body_start <= bytes@.len(),
{
    let mut slots = [httparse::EMPTY_HEADER; 64];
    let mut resp = httparse::Response::new(&mut slots);
    match resp.parse(bytes) {
        Ok(httparse::Status::Complete(n)) => HeadParse::Complete {
            version: resp.version,
            code: resp.code,
            headers: resp.headers.iter().map(|h| Header { name: h.name.as_bytes().to_vec(), value: h.value.to_vec() }).collect(),
            body_start: n,
        },
        Ok(httparse::Status::Partial) => HeadParse::Partial,
        Err(_) => HeadParse::Invalid,
    }
}

/// Protocol version of a response.
#[derive(PartialEq, Eq, Structural, Debug, Clone, Copy)]
pub enum HttpVersion {
    Http10,
    Http11,
    Http2,
}

/// The version named by a minor version number; HTTP/1.1 when absent or
/// unknown.
pub open spec fn version_of(v: Option<u8>) -> HttpVersion {
    match v {
        Some(0u8) => HttpVersion::Http10,
        Some(2u8) => HttpVersion::Http2,
        _ => HttpVersion::Http11,
    }
}

/// A response read to the end of its stream.
pub struct HttpResponse {
    pub status: u16,
    pub version: HttpVersion,
    pub headers: Vec<Header>,
    pub body: Vec<u8>,
}

pub struct ResponseView {
    pub status: u16,
    pub version: HttpVersion,
    pub headers: Seq<(Seq<u8>, Seq<u8>)>,
    pub body: Seq<u8>,
}

impl View for HttpResponse {
    type V = ResponseView;

    open spec fn view(&self) -> ResponseView {
        ResponseView {
            status: self.status,
            version: self.version,
            headers: headers_view(self.headers@),
            body: self.body@,
        }
    }
}

/// A valid status code has three digits, the first not zero.
pub open spec fn valid_status(code: u16) -> bool {
    100 <= code <= 999
}

/// What parsing the bytes of a whole response gives: the head as the parser
/// read it (status 200 when it gave none), and every byte after the head as
/// the body.
pub open spec fn response_result(b: Seq<u8>) -> Result<ResponseView, WireError> {
    match response_head(b) {
        HeadView::Invalid => Err(WireError::Malformed),
        HeadView::Partial => Err(WireError::Incomplete),
        HeadView::Complete { version, code, headers, body_start } => {
            let status = match code {
                Some(c) => c,
                None => 200u16,
            };
            if !valid_status(status) {
                Err(WireError::InvalidStatus)
            } else {
                Ok(ResponseView {
                    status,
                    version: version_of(version),
                    headers,
                    body: b.subrange(body_start as int, b.len() as int),
                })
            }
        },
    }
}

pub open spec fn response_matches(r: Result<HttpResponse, WireError>, s: Result<ResponseView, WireError>) -> bool {
    match r {
        Ok(resp) => s == Ok::<ResponseView, WireError>(resp@),
        Err(e) => s == Err::<ResponseView, WireError>(e),
    }
}

/// Parses a complete response, the stream having been read to its end.
/// Fails with `Incomplete` when the bytes stop inside the head.
pub fn parse_http_response(bytes: &[u8]) -> (r: Result<HttpResponse, WireError>)
    ensures
        response_matches(r, response_result(bytes@)),
{
    match parse_response_head(bytes) {
        HeadParse::Invalid => Err(WireError::Malformed),
        HeadParse::Partial => Err(WireError::Incomplete),
        HeadParse::Complete { version, code, headers, body_start } => {
            let status = match code {
                Some(c) => c,
                None => 200u16,
            };
            if status < 100 || status > 999 {
                return Err(WireError::InvalidStatus);
            }
            let v = match version {
                Some(0u8) => HttpVersion::Http10,
                Some(2u8) => HttpVersion::Http2,
                _ => HttpVersion::Http11,
            };
            let mut body: Vec<u8> = Vec::new();
            let mut k: usize = body_start;
            while k < bytes.len()
                invariant
                    body_start <= k <= bytes@.len(),
                    body@ == bytes@.subrange(body_start as int, k as int),
                decreases bytes@.len() - k,
            {
                body.push(bytes[k]);
                assert(bytes@.subrange(body_start as int, k + 1) =~= bytes@.subrange(body_start as int, k as int).push(bytes@[k as int]));
                k += 1;
            }
            Ok(HttpResponse { status, version: v, headers, body })
        },
    }
}

/// One header line: `name: value` and a line break.
pub open spec fn header_line(h: (Seq<u8>, Seq<u8>)) -> Seq<u8> {
    h.0 + seq![58u8, 32u8] + h.1 + crlf()
}

/// A header that can be read back from its line: a non-empty name without
/// `:` or carriage return, and a value without carriage return.
pub open spec fn header_wf(h: (Seq<u8>, Seq<u8>)) -> bool {
    &&& h.0.len() > 0
    &&& !h.0.contains(58u8)
    &&& !h.0.contains(13u8)
    &&& !h.1.contains(13u8)
}

/// A request that can be read back from its bytes: no space in the method or
/// the target, and every header readable.
pub open spec fn request_wf(r: RequestView) -> bool {
    &&& !r.method.contains(32u8)
    &&& !request_target(r.uri).contains(32u8)
    &&& forall|i: int| 0 <= i < r.headers.len() ==> header_wf(#[trigger] r.headers[i])
}

/// Text before the first `sep` is determined by the bytes.
proof fn lemma_split_at_first(a: Seq<u8>, x: Seq<u8>, b: Seq<u8>, y: Seq<u8>, sep: u8)
    requires
        !a.contains(sep),
        !b.contains(sep),
        a + seq![sep] + x == b + seq![sep] + y,
    ensures
        a == b,
        x == y,
{
    let s = a + seq![sep] + x;
    let t = b + seq![sep] + y;
    if a.len() < b.len() {
        assert(s[a.len() as int] == sep);
        assert(t[a.len() as int] == b[a.len() as int]);
        assert(b.contains(sep));
    } else if b.len() < a.len() {
        assert(t[b.len() as int] == sep);
        assert(s[b.len() as int] == a[b.len() as int]);
        assert(a.contains(sep));
    }
    assert(a =~= s.subrange(0, a.len() as int));
    assert(b =~= t.subrange(0, b.len() as int));
    assert(x =~= s.subrange(a.len() as int + 1, s.len() as int));
    assert(y =~= t.subrange(b.len() as int + 1, t.len() as int));
}

/// Header lines read front to back.
proof fn lemma_header_lines_front(h: Seq<(Seq<u8>, Seq<u8>)>)
    requires
        h.len() > 0,
    ensures
        header_lines(h) == header_line(h[0]) + header_lines(h.drop_first()),
    decreases h.len(),
{
    if h.len() == 1 {
        assert(h.drop_last() =~= Seq::<(Seq<u8>, Seq<u8>)>::empty());
        assert(h.drop_first() =~= Seq::<(Seq<u8>, Seq<u8>)>::empty());
        assert(header_lines(h) =~= header_line(h[0]) + header_lines(h.drop_first()));
    } else {
        lemma_header_lines_front(h.drop_last());
        assert(h.drop_first().drop_last() =~= h.drop_last().drop_first());
        assert(h.drop_first().last() == h.last());
        assert(h.drop_last()[0] == h[0]);
        assert(header_lines(h) =~= header_line(h[0]) + header_lines(h.drop_first()));
    }
}

/// A header line and what follows it are determined by the bytes.
proof fn lemma_line_unambiguous(ha: (Seq<u8>, Seq<u8>), r1: Seq<u8>, hb: (Seq<u8>, Seq<u8>), r2: Seq<u8>)
    requires
        header_wf(ha),
        header_wf(hb),
        header_line(ha) + r1 == header_line(hb) + r2,
    ensures
        ha == hb,
        r1 == r2,
{
    let s = header_line(ha) + r1;
    let x1 = seq![32u8] + ha.1 + seq![13u8] + seq![10u8] + r1;
    let x2 = seq![32u8] + hb.1 + seq![13u8] + seq![10u8] + r2;
    assert(s =~= ha.0 + seq![58u8] + x1);
    assert(s =~= hb.0 + seq![58u8] + x2);
    lemma_split_at_first(ha.0, x1, hb.0, x2, 58u8);
    let y1 = seq![10u8] + r1;
    let y2 = seq![10u8] + r2;
    assert(x1.subrange(1, x1.len() as int) =~= ha.1 + seq![13u8] + y1);
    assert(x2.subrange(1, x2.len() as int) =~= hb.1 + seq![13u8] + y2);
    lemma_split_at_first(ha.1, y1, hb.1, y2, 13u8);
    assert(r1 =~= y1.subrange(1, y1.len() as int));
    assert(r2 =~= y2.subrange(1, y2.len() as int));
}

/// The header block and the body after it are determined by the bytes.
proof fn lemma_headers_unambiguous(
    h1: Seq<(Seq<u8>, Seq<u8>)>,
    b1: Seq<u8>,
    h2: Seq<(Seq<u8>, Seq<u8>)>,
    b2: Seq<u8>,
)
    requires
        forall|i: int| 0 <= i < h1.len() ==> header_wf(#[trigger] h1[i]),
        forall|i: int| 0 <= i < h2.len() ==> header_wf(#[trigger] h2[i]),
        header_lines(h1) + crlf() + b1 == header_lines(h2) + crlf() + b2,
    ensures
        h1 == h2,
        b1 == b2,
    decreases h1.len(),
{
    let s = header_lines(h1) + crlf() + b1;
    if h1.len() == 0 && h2.len() == 0 {
        assert(b1 =~= s.subrange(2, s.len() as int));
        assert(b2 =~= s.subrange(2, s.len() as int));
        assert(h1 =~= h2);
    } else if h1.len() == 0 {
        lemma_header_lines_front(h2);
        assert(header_wf(h2[0]));
        assert(s[0] == 13u8);
        assert(s[0] == h2[0].0[0]);
        assert(h2[0].0.contains(13u8));
    } else if h2.len() == 0 {
        lemma_header_lines_front(h1);
        assert(header_wf(h1[0]));
        assert(s[0] == h1[0].0[0]);
        assert(h1[0].0.contains(13u8));
    } else {
        lemma_header_lines_front(h1);
        lemma_header_lines_front(h2);
        assert(header_wf(h1[0]));
        assert(header_wf(h2[0]));
        let r1 = header_lines(h1.drop_first()) + crlf() + b1;
        let r2 = header_lines(h2.drop_first()) + crlf() + b2;
        assert(s =~= header_line(h1[0]) + r1);
        assert(s =~= header_line(h2[0]) + r2);
        lemma_line_unambiguous(h1[0], r1, h2[0], r2);
        let t1 = h1.drop_first();
        let t2 = h2.drop_first();
        assert forall|i: int| 0 <= i < t1.len() implies header_wf(#[trigger] t1[i]) by {
            assert(t1[i] == h1[i + 1]);
        }
        assert forall|i: int| 0 <= i < t2.len() implies header_wf(#[trigger] t2[i]) by {
            assert(t2[i] == h2[i + 1]);
        }
        lemma_headers_unambiguous(t1, b1, t2, b2);
        assert(h1 =~= seq![h1[0]] + t1);
        assert(h2 =~= seq![h2[0]] + t2);
    }
}

/// Request framing reads back: two well-formed requests whose bytes are
/// the same have the same method, target, headers and body, so a peer that
/// parses the bytes recovers exactly what was encoded.
pub proof fn lemma_request_bytes_unambiguous(r1: RequestView, r2: RequestView)
    requires
        request_wf(r1),
        request_wf(r2),
        request_bytes(r1) == request_bytes(r2),
    ensures
        r1.method == r2.method,
        request_target(r1.uri) == request_target(r2.uri),
        r1.headers == r2.headers,
        r1.body == r2.body,
{
    let s = request_bytes(r1);
    let t1 = request_target(r1.uri);
    let t2 = request_target(r2.uri);
    let tail1 = header_lines(r1.headers) + crlf() + r1.body;
    let tail2 = header_lines(r2.headers) + crlf() + r2.body;
    let x1 = t1 + seq![32u8] + http11() + crlf() + tail1;
    let x2 = t2 + seq![32u8] + http11() + crlf() + tail2;
    assert(s =~= r1.method + seq![32u8] + x1);
    assert(s =~= r2.method + seq![32u8] + x2);
    lemma_split_at_first(r1.method, x1, r2.method, x2, 32u8);
    let y1 = http11() + crlf() + tail1;
    let y2 = http11() + crlf() + tail2;
    assert(x1 =~= t1 + seq![32u8] + y1);
    assert(x2 =~= t2 + seq![32u8] + y2);
    lemma_split_at_first(t1, y1, t2, y2, 32u8);
    assert(tail1 =~= y1.subrange(10, y1.len() as int));
    assert(tail2 =~= y2.subrange(10, y2.len() as int));
    lemma_headers_unambiguous(r1.headers, r1.body, r2.headers, r2.body);
}

/// Whether a status code reports success (`200..=299`).
pub open spec fn is_success(status: u16) -> bool {
    200 <= status <= 299
}

} // verus!
