//! HTTP proxy requests: `CONNECT` and requests in absolute form.
use vstd::prelude::*;
use vstd::slice::slice_subrange;
use vstd::utf8::*;
use crate::proxy::{http_proxy_error, OutcomeModel, ProxyOutcome, ProxyProtocol, ProxyRequest,
    RequestModel};
use crate::text;
use crate::text::{cut, cut_char, cut_last, from_chars, line_slices, pieces, port_value,
    same, same_ignoring_case, to_chars, utf8_lossy, word};

verus! {

broadcast use vstd::string::group_string_axioms;

/// The length beyond which a request head without an end is refused.
pub const MAX_HEAD: usize = 8192;

/// The message for a request without a line end.
pub open spec fn bad_request_text() -> Seq<char> {
    "Invalid HTTP proxy request."@
}

/// The message for a bracketed host without its closing bracket.
pub open spec fn bad_ipv6_text() -> Seq<char> {
    "Invalid IPv6 CONNECT target."@
}

/// A header that is meant for the proxy and not for the host behind it.
pub open spec fn proxy_only(name: Seq<char>) -> bool {
    ||| text::lower(name) == text::lower("proxy-connection"@)
    ||| text::lower(name) == text::lower("proxy-authenticate"@)
    ||| text::lower(name) == text::lower("proxy-authorization"@)
}

/// The name in a header line: what stands before the first colon.
pub open spec fn header_name(line: Seq<char>) -> Seq<char> {
    match text::split_once(line, seq![':']) {
        Some((name, _)) => name,
        None => line,
    }
}

/// The header text that goes on to the host: the lines up to the first empty
/// one, without those meant for the proxy, and that empty line.
pub open spec fn forwarded(lines: Seq<Seq<char>>) -> Seq<char>
    decreases lines.len(),
{
    if lines.len() == 0 {
        Seq::empty()
    } else if lines[0].len() == 0 {
        "\r\n"@
    } else if proxy_only(header_name(lines[0])) {
        forwarded(lines.skip(1))
    } else {
        lines[0] + "\r\n"@ + forwarded(lines.skip(1))
    }
}

/// The header text of a request that goes on to the host, if the request has a
/// first line.
pub open spec fn forwarded_headers(request: Seq<char>) -> Result<Seq<char>, Seq<char>> {
    match text::split_once(request, "\r\n"@) {
        Some((_, headers)) => Ok(forwarded(text::split(headers, "\r\n"@))),
        None => Err(bad_request_text()),
    }
}

/// The host and port that `value` names: `host:port`, `[host]:port`, or a host
/// alone, which goes with the default port. What follows the last colon belongs
/// to the host unless it is a port.
pub open spec fn host_port(value: Seq<char>, default_port: u16) -> Result<
    (Seq<char>, u16),
    Seq<char>,
> {
    if value.len() > 0 && value[0] == '[' {
        match text::split_once(value.skip(1), seq![']']) {
            Some((host, rest)) => Ok((host, bracketed_port(rest, default_port))),
            None => Err(bad_ipv6_text()),
        }
    } else {
        match text::split_last(value, ':') {
            Some((host, port)) => match text::parse_port(port) {
                Some(port) => Ok((host, port)),
                None => Ok((value, default_port)),
            },
            None => Ok((value, default_port)),
        }
    }
}

/// The port behind a bracketed host.
pub open spec fn bracketed_port(rest: Seq<char>, default_port: u16) -> u16 {
    if rest.len() > 0 && rest[0] == ':' {
        match text::parse_port(rest.skip(1)) {
            Some(port) => port,
            None => default_port,
        }
    } else {
        default_port
    }
}

/// Whether a header is meant for the proxy and not for the host behind it.
pub fn is_proxy_only_header(name: &str) -> (yes: bool)
    ensures
        yes == proxy_only(name@),
{
    let name = to_chars(name);
    proxy_only_chars(name.as_slice())
}

fn proxy_only_chars(name: &[char]) -> (yes: bool)
    ensures
        yes == proxy_only(name@),
{
    let connection = to_chars("proxy-connection");
    let authenticate = to_chars("proxy-authenticate");
    let authorization = to_chars("proxy-authorization");
    same_ignoring_case(name, connection.as_slice()) || same_ignoring_case(
        name,
        authenticate.as_slice(),
    ) || same_ignoring_case(name, authorization.as_slice())
}

/// The header lines of a request, as bytes, that go on to the host.
pub fn forwardable_http_headers(request: &[u8]) -> (headers: Result<Vec<u8>, String>)
    ensures
        match headers {
            Ok(bytes) => match forwarded_headers(text::lossy_text(request@)) {
                Ok(text) => bytes@ == encode_utf8(text),
                Err(_) => false,
            },
            Err(message) => forwarded_headers(text::lossy_text(request@)) == Err::<
                Seq<char>,
                Seq<char>,
            >(message@),
        },
        valid_utf8(request@) ==> match headers {
            Ok(bytes) => match forwarded_headers(decode_utf8(request@)) {
                Ok(text) => bytes@ == encode_utf8(text),
                Err(_) => false,
            },
            Err(message) => forwarded_headers(decode_utf8(request@)) == Err::<
                Seq<char>,
                Seq<char>,
            >(message@),
        },
{
    let text = utf8_lossy(request);
    forwardable_headers_of(text.as_str())
}

/// The header lines of a request's text, as bytes, that go on to the host.
pub fn forwardable_headers_of(text: &str) -> (headers: Result<Vec<u8>, String>)
    ensures
        match headers {
            Ok(bytes) => match forwarded_headers(text@) {
                Ok(text) => bytes@ == encode_utf8(text),
                Err(_) => false,
            },
            Err(message) => forwarded_headers(text@) == Err::<Seq<char>, Seq<char>>(message@),
        },
{
    let chars = to_chars(text);
    let line_end = to_chars("\r\n");
    proof {
        reveal_strlit("\r\n");
    }
    let headers = match cut(chars.as_slice(), line_end.as_slice()) {
        Some((_, headers)) => headers,
        None => {
            return Err("Invalid HTTP proxy request.".to_string());
        },
    };
    let lines = pieces(headers, line_end.as_slice());
    let ghost all = text::texts(lines@);
    let mut output = String::new();
    let mut i: usize = 0;
    assert(all.skip(0) == all);
    while i < lines.len()
        invariant
            i <= lines@.len(),
            all == text::texts(lines@),
            all == text::split(headers@, "\r\n"@),
            forwarded_headers(text@) == Ok::<Seq<char>, Seq<char>>(forwarded(all)),
            forwarded(all) == output@ + forwarded(all.skip(i as int)),
        decreases lines.len() - i,
    {
        let line: &[char] = lines[i];
        assert(all.skip(i as int)[0] == line@);
        assert(all.skip(i as int).skip(1) == all.skip(i + 1));
        if line.len() == 0 {
            output.append("\r\n");
            return Ok(output.as_str().as_bytes_vec());
        }
        let name = match cut_char(line, ':') {
            Some((name, _)) => name,
            None => line,
        };
        if !proxy_only_chars(name) {
            let ghost before = output@;
            let line = from_chars(line);
            output.append(line.as_str());
            output.append("\r\n");
            assert(before + (line@ + "\r\n"@ + forwarded(all.skip(i + 1))) == output@ + forwarded(
                all.skip(i + 1),
            ));
        }
        i = i + 1;
    }
    assert(output@ + forwarded(all.skip(i as int)) == output@);
    Ok(output.as_str().as_bytes_vec())
}

/// The host and port that `value` names.
pub fn parse_host_port(value: &str, default_port: u16) -> (target: Result<(String, u16), String>)
    ensures
        match target {
            Ok((host, port)) => host_port(value@, default_port) == Ok::<
                (Seq<char>, u16),
                Seq<char>,
            >((host@, port)),
            Err(message) => host_port(value@, default_port) == Err::<
                (Seq<char>, u16),
                Seq<char>,
            >(message@),
        },
{
    let chars = to_chars(value);
    parse_host_port_chars(chars.as_slice(), default_port)
}

fn parse_host_port_chars(value: &[char], default_port: u16) -> (target: Result<
    (String, u16),
    String,
>)
    ensures
        match target {
            Ok((host, port)) => host_port(value@, default_port) == Ok::<
                (Seq<char>, u16),
                Seq<char>,
            >((host@, port)),
            Err(message) => host_port(value@, default_port) == Err::<
                (Seq<char>, u16),
                Seq<char>,
            >(message@),
        },
{
    if value.len() > 0 && value[0] == '[' {
        return match cut_char(slice_subrange(value, 1, value.len()), ']') {
            Some((host, rest)) => {
                let named = if rest.len() > 0 && rest[0] == ':' {
                    port_value(slice_subrange(rest, 1, rest.len()))
                } else {
                    None
                };
                let port: u16 = match named {
                    Some(port) => port,
                    None => default_port,
                };
                Ok((from_chars(host), port))
            },
            None => Err("Invalid IPv6 CONNECT target.".to_string()),
        };
    }
    match cut_last(value, ':') {
        Some((host, port)) => match port_value(port) {
            Some(port) => Ok((from_chars(host), port)),
            None => Ok((from_chars(value), default_port)),
        },
        None => Ok((from_chars(value), default_port)),
    }
}

/// The first line of a request.
pub open spec fn request_line(request: Seq<char>) -> Seq<char> {
    if text::lines(request).len() > 0 {
        text::lines(request)[0]
    } else {
        Seq::empty()
    }
}

/// The method, the target and the version in a request line: its first three
/// words. A missing version is `HTTP/1.1`; another missing word is empty.
pub open spec fn request_words(line: Seq<char>) -> (Seq<char>, Seq<char>, Seq<char>) {
    let rest = text::after_first_word(line);
    let version = text::first_word(text::after_first_word(rest));
    (
        text::first_word(line),
        text::first_word(rest),
        if version.len() == 0 {
            "HTTP/1.1"@
        } else {
            version
        },
    )
}

/// The authority and the path in what follows `http://`.
pub open spec fn authority_path(rest: Seq<char>) -> (Seq<char>, Seq<char>) {
    match text::split_once(rest, seq!['/']) {
        Some((authority, path)) => (authority, "/"@ + path),
        None => (rest, "/"@),
    }
}

/// What a complete HTTP proxy request asks for.
///
/// `CONNECT` names its host and port, port 443 if there is none. Any other
/// method must name an `http://` target, whose port is 80 unless it says
/// otherwise; the host then gets the request line in origin form and the
/// headers that are not meant for the proxy. All else is a bad request.
pub open spec fn http_outcome(request: Seq<char>) -> Result<OutcomeModel, Seq<char>> {
    let (method, target, version) = request_words(request_line(request));
    if text::lower(method) == text::lower("CONNECT"@) {
        match host_port(target, 443) {
            Ok((host, port)) => Ok(
                OutcomeModel::Accepted(
                    RequestModel {
                        protocol: ProxyProtocol::HttpConnect,
                        host,
                        port,
                        preface: Seq::empty(),
                    },
                ),
            ),
            Err(message) => Err(message),
        }
    } else if !text::occurs_at(target, "http://"@, 0) {
        Ok(OutcomeModel::Refused(crate::proxy::http_error("400 Bad Request"@)))
    } else {
        let (authority, path) = authority_path(target.skip("http://"@.len() as int));
        match host_port(authority, 80) {
            Ok((host, port)) => match forwarded_headers(request) {
                Ok(headers) => Ok(
                    OutcomeModel::Accepted(
                        RequestModel {
                            protocol: ProxyProtocol::HttpForward,
                            host,
                            port,
                            preface: encode_utf8(
                                method + " "@ + path + " "@ + version + "\r\n"@,
                            ) + encode_utf8(headers),
                        },
                    ),
                ),
                Err(message) => Err(message),
            },
            Err(message) => Err(message),
        }
    }
}

/// What a complete HTTP proxy request asks for.
pub fn http_request(request: &[u8]) -> (outcome: Result<ProxyOutcome, String>)
    ensures
        crate::proxy::outcome_model(outcome) == http_outcome(text::lossy_text(request@)),
        valid_utf8(request@) ==> crate::proxy::outcome_model(outcome) == http_outcome(
            decode_utf8(request@),
        ),
{
    let text = utf8_lossy(request);
    http_request_of(text.as_str())
}

/// What the text of a complete HTTP proxy request asks for.
pub fn http_request_of(text: &str) -> (outcome: Result<ProxyOutcome, String>)
    ensures
        crate::proxy::outcome_model(outcome) == http_outcome(text@),
{
    let chars = to_chars(text);
    let lines = line_slices(chars.as_slice());
    assert(text::lines(text@).len() == lines@.len());
    let line: &[char] = if lines.len() > 0 {
        lines[0]
    } else {
        slice_subrange(chars.as_slice(), 0, 0)
    };
    assert(line@ == request_line(text@));
    let (method, rest) = word(line);
    let (target, rest) = word(rest);
    let (version, _) = word(rest);
    let version = if version.len() == 0 {
        "HTTP/1.1".to_string()
    } else {
        from_chars(version)
    };
    let connect = to_chars("CONNECT");
    if same_ignoring_case(method, connect.as_slice()) {
        return match parse_host_port_chars(target, 443) {
            Ok((host, port)) => Ok(
                ProxyOutcome::Accepted(
                    ProxyRequest {
                        protocol: ProxyProtocol::HttpConnect,
                        host,
                        port,
                        preface: Vec::new(),
                    },
                ),
            ),
            Err(message) => Err(message),
        };
    }
    let scheme = to_chars("http://");
    if !starts_with(target, scheme.as_slice()) {
        return Ok(ProxyOutcome::Refused(http_proxy_error("400 Bad Request")));
    }
    let stripped = slice_subrange(target, scheme.len(), target.len());
    let mut path = "/".to_string();
    let authority = match cut_char(stripped, '/') {
        Some((authority, rest)) => {
            let rest = from_chars(rest);
            path.append(rest.as_str());
            authority
        },
        None => stripped,
    };
    assert((authority@, path@) == authority_path(stripped@));
    let (host, port) = match parse_host_port_chars(authority, 80) {
        Ok((host, port)) => (host, port),
        Err(message) => {
            return Err(message);
        },
    };
    let mut headers = match forwardable_headers_of(text) {
        Ok(headers) => headers,
        Err(message) => {
            return Err(message);
        },
    };
    let mut first = from_chars(method);
    first.append(" ");
    first.append(path.as_str());
    first.append(" ");
    first.append(version.as_str());
    first.append("\r\n");
    let mut preface = first.as_str().as_bytes_vec();
    preface.append(&mut headers);
    Ok(
        ProxyOutcome::Accepted(
            ProxyRequest { protocol: ProxyProtocol::HttpForward, host, port, preface },
        ),
    )
}

fn starts_with(s: &[char], pat: &[char]) -> (yes: bool)
    ensures
        yes == text::occurs_at(s@, pat@, 0),
{
    if pat.len() > s.len() {
        return false;
    }
    same(slice_subrange(s, 0, pat.len()), pat)
}

/// The bytes at which a request head ends.
pub open spec fn head_end() -> Seq<u8> {
    seq![13u8, 10, 13, 10]
}

/// A request head as far as it has been read.
pub struct HttpHead {
    pub request: Vec<u8>,
}

/// What to do about a request head.
#[derive(Debug, PartialEq, Eq)]
pub enum HeadStep {
    /// Read more of it.
    Read,
    /// It is too long: send these bytes and let the client go.
    Refuse(Vec<u8>),
    /// It is complete.
    Complete,
}

impl HttpHead {
    /// A head of which only the first byte is known.
    pub fn new(first_byte: u8) -> (head: HttpHead)
        ensures
            head.request@ == seq![first_byte],
    {
        let mut request: Vec<u8> = Vec::new();
        request.push(first_byte);
        HttpHead { request }
    }

    /// What to do next: the head is complete as soon as it holds an empty line,
    /// and refused once it is longer than the limit without one.
    pub fn step(&self) -> (step: HeadStep)
        ensures
            match step {
                HeadStep::Complete => text::contains(self.request@, head_end()),
                HeadStep::Refuse(reply) => {
                    &&& !text::contains(self.request@, head_end())
                    &&& self.request@.len() > MAX_HEAD
                    &&& reply@ == crate::proxy::http_error("413 Payload Too Large"@)
                },
                HeadStep::Read => {
                    &&& !text::contains(self.request@, head_end())
                    &&& self.request@.len() <= MAX_HEAD
                },
            },
    {
        if holds_head_end(self.request.as_slice()) {
            HeadStep::Complete
        } else if self.request.len() > MAX_HEAD {
            HeadStep::Refuse(http_proxy_error("413 Payload Too Large"))
        } else {
            HeadStep::Read
        }
    }

    /// Takes up bytes that were read.
    pub fn received(&mut self, chunk: &[u8])
        ensures
            final(self).request@ == old(self).request@ + chunk@,
    {
        self.request.extend_from_slice(chunk);
    }
}

fn holds_head_end(bytes: &[u8]) -> (yes: bool)
    ensures
        yes == text::contains(bytes@, head_end()),
{
    let n: usize = bytes.len();
    if n < 4 {
        return false;
    }
    let mut i: usize = 0;
    while i <= n - 4
        invariant
            4 <= n,
            n == bytes@.len(),
            i <= n - 3,
            forall|j: int| 0 <= j < i ==> !text::occurs_at(bytes@, head_end(), j),
        decreases n - i,
    {
        if bytes[i] == 13 && bytes[i + 1] == 10 && bytes[i + 2] == 13 && bytes[i + 3] == 10 {
            assert(bytes@.subrange(i as int, i + 4) == head_end());
            assert(text::occurs_at(bytes@, head_end(), i as int));
            return true;
        }
        proof {
            if text::occurs_at(bytes@, head_end(), i as int) {
                let w = bytes@.subrange(i as int, i + 4);
                assert(w[0] == 13 && w[1] == 10 && w[2] == 13 && w[3] == 10);
            }
        }
        i = i + 1;
    }
    false
}

} // verus!
