//! Proxy requests, however they were made, and the answers to them.
use vstd::prelude::*;
use vstd::slice::slice_to_vec;
use vstd::utf8::*;
use crate::http_laws;
use crate::text;

verus! {

/// The protocol in which a client asked for a connection.
#[derive(Debug, Clone, Copy, PartialEq, Eq, Structural)]
pub enum ProxyProtocol {
    Socks5,
    HttpConnect,
    HttpForward,
}

/// The way in which a client makes its request.
#[derive(Debug, Clone, Copy, PartialEq, Eq, Structural)]
pub enum ProxyDialect {
    Socks5,
    Http,
}

/// The first byte of a client that speaks SOCKS5.
pub const SOCKS5_VERSION: u8 = 0x05;

/// The way in which a client makes its request, from the first byte that it sends:
/// whatever is not SOCKS5 is taken for HTTP.
pub fn proxy_dialect(first: u8) -> (dialect: ProxyDialect)
    ensures
        dialect == if first == SOCKS5_VERSION {
            ProxyDialect::Socks5
        } else {
            ProxyDialect::Http
        },
{
    if first == SOCKS5_VERSION {
        ProxyDialect::Socks5
    } else {
        ProxyDialect::Http
    }
}

/// A client's wish to be connected to a host and port.
#[derive(Debug)]
pub struct ProxyRequest {
    pub protocol: ProxyProtocol,
    pub host: String,
    pub port: u16,
    /// Bytes to send to the host before anything else.
    pub preface: Vec<u8>,
}

/// The content of a [`ProxyRequest`].
pub struct RequestModel {
    pub protocol: ProxyProtocol,
    pub host: Seq<char>,
    pub port: u16,
    pub preface: Seq<u8>,
}

impl View for ProxyRequest {
    type V = RequestModel;

    open spec fn view(&self) -> RequestModel {
        RequestModel {
            protocol: self.protocol,
            host: self.host@,
            port: self.port,
            preface: self.preface@,
        }
    }
}

impl Clone for ProxyRequest {
    fn clone(&self) -> (copy: ProxyRequest)
        ensures
            copy@ == self@,
    {
        ProxyRequest {
            protocol: self.protocol,
            host: self.host.clone(),
            port: self.port,
            preface: slice_to_vec(self.preface.as_slice()),
        }
    }
}

/// What becomes of a client once its request has been read.
#[derive(Debug)]
pub enum ProxyOutcome {
    /// The client is to be connected.
    Accepted(ProxyRequest),
    /// The client gets these bytes and is let go.
    Refused(Vec<u8>),
}

/// The content of a [`ProxyOutcome`].
pub enum OutcomeModel {
    Accepted(RequestModel),
    Refused(Seq<u8>),
}

impl View for ProxyOutcome {
    type V = OutcomeModel;

    open spec fn view(&self) -> OutcomeModel {
        match self {
            ProxyOutcome::Accepted(request) => OutcomeModel::Accepted(request@),
            ProxyOutcome::Refused(reply) => OutcomeModel::Refused(reply@),
        }
    }
}

/// The content of what a parser returns: an outcome, or a message.
pub open spec fn outcome_model(result: Result<ProxyOutcome, String>) -> Result<
    OutcomeModel,
    Seq<char>,
> {
    match result {
        Ok(outcome) => Ok(outcome@),
        Err(message) => Err(message@),
    }
}

/// The bytes that tell a client that its connection stands.
pub open spec fn success_reply(protocol: ProxyProtocol) -> Seq<u8> {
    match protocol {
        ProxyProtocol::Socks5 => seq![0x05u8, 0, 0, 0x01, 0, 0, 0, 0, 0, 0],
        ProxyProtocol::HttpConnect => encode_utf8(
            "HTTP/1.1 200 Connection Established\r\n\r\n"@,
        ),
        ProxyProtocol::HttpForward => Seq::empty(),
    }
}

/// The bytes that tell a SOCKS5 client that its request failed.
pub open spec fn socks5_failure() -> Seq<u8> {
    seq![0x05u8, 0x01, 0, 0x01, 0, 0, 0, 0, 0, 0]
}

/// The response with which an HTTP client is turned away.
pub open spec fn http_error(status: Seq<char>) -> Seq<u8> {
    encode_utf8(
        "HTTP/1.1 "@ + status + "\r\nConnection: close\r\nContent-Length: 0\r\n\r\n"@,
    )
}

/// The bytes that tell a client that its connection stands; none for a forwarded
/// HTTP request, which is answered by the host itself.
pub fn proxy_success(protocol: ProxyProtocol) -> (reply: Vec<u8>)
    ensures
        reply@ == success_reply(protocol),
{
    match protocol {
        ProxyProtocol::Socks5 => vec![0x05u8, 0x00, 0x00, 0x01, 0, 0, 0, 0, 0, 0],
        ProxyProtocol::HttpConnect => "HTTP/1.1 200 Connection Established\r\n\r\n".as_bytes_vec(),
        ProxyProtocol::HttpForward => Vec::new(),
    }
}

/// The bytes that tell a SOCKS5 client that its request failed.
pub fn socks5_failure_reply() -> (reply: Vec<u8>)
    ensures
        reply@ == socks5_failure(),
{
    vec![0x05u8, 0x01, 0x00, 0x01, 0, 0, 0, 0, 0, 0]
}

/// The response with which an HTTP client is turned away.
pub fn http_proxy_error(status: &str) -> (reply: Vec<u8>)
    ensures
        reply@ == http_error(status@),
{
    let mut text = String::new();
    text.append("HTTP/1.1 ");
    text.append(status);
    text.append("\r\nConnection: close\r\nContent-Length: 0\r\n\r\n");
    assert(text@ == "HTTP/1.1 "@ + status@
        + "\r\nConnection: close\r\nContent-Length: 0\r\n\r\n"@);
    text.as_str().as_bytes_vec()
}

/// A client that speaks SOCKS5 begins with the byte 5, and every other is taken to
/// speak HTTP.
pub proof fn law_dialects(first: u8, dialect: ProxyDialect)
    requires
        call_ensures(proxy_dialect, (first,), dialect),
    ensures
        dialect == ProxyDialect::Socks5 <==> first == 5,
        dialect == ProxyDialect::Http <==> first != 5,
{
}

/// The answers to a SOCKS5 request are ten bytes that differ in the second alone,
/// which is zero where the connection stands and one where it does not: version 5,
/// and a bound address of zeros of the IPv4 kind. A forwarded request is answered by
/// the host itself.
pub proof fn law_socks5_answers(i: int)
    requires
        0 <= i < 10,
    ensures
        ({
            let stands = success_reply(ProxyProtocol::Socks5);
            let failed = socks5_failure();
            &&& stands.len() == 10 && failed.len() == 10
            &&& i != 1 ==> stands[i] == failed[i]
            &&& stands[1] == 0 && failed[1] == 1
            &&& stands[i] == if i == 0 {
                5u8
            } else if i == 3 {
                1u8
            } else {
                0u8
            }
            &&& success_reply(ProxyProtocol::HttpForward).len() == 0
        }),
{
}

proof fn lemma_line_has_no_end(line: Seq<char>)
    requires
        !line.contains('\r'),
    ensures
        !text::contains(line, "\r\n"@),
{
    reveal_strlit("\r\n");
    assert forall|i: int| !text::occurs_at(line, "\r\n"@, i) by {
        if text::occurs_at(line, "\r\n"@, i) {
            assert(line.subrange(i, i + 2)[0] == '\r');
            assert(line[i] == '\r');
        }
    }
}

/// Read line by line, the response that turns a client away gives the status in its
/// first line, says that the connection is closed and that nothing follows, and
/// ends with an empty line.
pub proof fn law_error_response_lines(status: Seq<char>)
    requires
        !status.contains('\r'),
    ensures
        text::split(decode_utf8(http_error(status)), "\r\n"@) == seq![
            "HTTP/1.1 "@ + status,
            "Connection: close"@,
            "Content-Length: 0"@,
            ""@,
            ""@,
        ],
        valid_utf8(http_error(status)),
{
    reveal_strlit("HTTP/1.1 ");
    reveal_strlit("Connection: close");
    reveal_strlit("Content-Length: 0");
    reveal_strlit("");
    reveal_strlit("\r\n");
    reveal_strlit("\r\nConnection: close\r\nContent-Length: 0\r\n\r\n");
    let whole = "HTTP/1.1 "@ + status + "\r\nConnection: close\r\nContent-Length: 0\r\n\r\n"@;
    encode_utf8_valid_utf8(whole);
    encode_utf8_decode_utf8(whole);
    let end = "\r\n"@;
    let first = "HTTP/1.1 "@ + status;
    let second = "Connection: close"@;
    let third = "Content-Length: 0"@;
    let none = ""@;
    assert(!first.contains('\r')) by {
        if first.contains('\r') {
            let i = first.index_of('\r');
            if i >= 9 {
                assert(status[i - 9] == '\r');
            }
        }
    }
    lemma_line_has_no_end(first);
    lemma_line_has_no_end(second);
    lemma_line_has_no_end(third);
    lemma_line_has_no_end(none);
    let c = none + end + none;
    let b = third + end + c;
    let a = second + end + b;
    http_laws::lemma_split_line(first, a);
    http_laws::lemma_split_line(second, b);
    http_laws::lemma_split_line(third, c);
    http_laws::lemma_split_line(none, none);
    http_laws::lemma_split_empty();
    assert(none =~= Seq::<char>::empty());
    assert(whole =~= first + end + a);
    assert(text::split(whole, end) =~= seq![first, second, third, none, none]);
}

/// Read line by line, the answer to a client whose connection stands is the status
/// 200 and an empty line.
pub proof fn law_connected_response_lines()
    ensures
        text::split(decode_utf8(success_reply(ProxyProtocol::HttpConnect)), "\r\n"@) == seq![
            "HTTP/1.1 200 Connection Established"@,
            ""@,
            ""@,
        ],
        valid_utf8(success_reply(ProxyProtocol::HttpConnect)),
{
    reveal_strlit("HTTP/1.1 200 Connection Established\r\n\r\n");
    reveal_strlit("HTTP/1.1 200 Connection Established");
    reveal_strlit("\r\n");
    reveal_strlit("");
    let whole = "HTTP/1.1 200 Connection Established\r\n\r\n"@;
    encode_utf8_valid_utf8(whole);
    encode_utf8_decode_utf8(whole);
    let end = "\r\n"@;
    let first = "HTTP/1.1 200 Connection Established"@;
    let none = ""@;
    lemma_line_has_no_end(first);
    lemma_line_has_no_end(none);
    http_laws::lemma_split_line(first, none + end + none);
    http_laws::lemma_split_line(none, none);
    http_laws::lemma_split_empty();
    assert(none =~= Seq::<char>::empty());
    assert(whole =~= first + end + (none + end + none));
    assert(text::split(whole, end) =~= seq![first, none, none]);
}

} // verus!
