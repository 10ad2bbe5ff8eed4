use wormhole::http::{
    forwardable_http_headers, http_request, is_proxy_only_header, parse_host_port, HeadStep,
    HttpHead,
};
use wormhole::proxy::{
    proxy_dialect, proxy_success, socks5_failure_reply, ProxyDialect, ProxyOutcome, ProxyProtocol,
    ProxyRequest,
};
use wormhole::socks::{socks5_step, socks5_wanted, Socks5State, Socks5Step};

/// Runs the handshake on what a client sends after the version byte; gives the
/// bytes sent to the client and the last step.
fn handshake(input: &[u8]) -> (Vec<u8>, Option<Socks5Step>) {
    let mut sent = Vec::new();
    let mut rest = input;
    let mut state = Socks5State::MethodCount;
    loop {
        let count = socks5_wanted(&state);
        if rest.len() < count {
            return (sent, None);
        }
        let (bytes, tail) = rest.split_at(count);
        rest = tail;
        match socks5_step(state, bytes) {
            Socks5Step::Read(next) => state = next,
            Socks5Step::Reply(bytes, next) => {
                sent.extend(bytes);
                state = next;
            }
            end => return (sent, Some(end)),
        }
    }
}

/// Reads a head in chunks of so many bytes, then what it asks for.
fn read_head(request: &[u8], chunk: usize) -> Result<ProxyOutcome, String> {
    let mut head = HttpHead::new(request[0]);
    let mut rest = &request[1..];
    loop {
        match head.step() {
            HeadStep::Complete => return http_request(&head.request),
            HeadStep::Refuse(reply) => return Ok(ProxyOutcome::Refused(reply)),
            HeadStep::Read => {
                let n = chunk.min(rest.len());
                assert!(n > 0);
                head.received(&rest[..n]);
                rest = &rest[n..];
            }
        }
    }
}

fn accepted(outcome: Result<ProxyOutcome, String>) -> ProxyRequest {
    match outcome {
        Ok(ProxyOutcome::Accepted(request)) => request,
        other => panic!("{other:?}"),
    }
}

#[test]
fn parses_socks5_probe_and_connect_request() {
    assert_eq!(proxy_dialect(0x05), ProxyDialect::Socks5);
    let (sent, end) = handshake(&[
        0x01, 0x00, 0x05, 0x01, 0x00, 0x03, 0x0b, b'e', b'x', b'a', b'm', b'p', b'l', b'e', b'.',
        b'c', b'o', b'm', 0x01, 0xbb,
    ]);
    assert_eq!(sent, [0x05, 0x00]);
    let request = match end {
        Some(Socks5Step::Accepted(request)) => request,
        other => panic!("{other:?}"),
    };

    assert!(matches!(request.protocol, ProxyProtocol::Socks5));
    assert_eq!(request.host, "example.com");
    assert_eq!(request.port, 443);
    assert!(request.preface.is_empty());
}

#[test]
fn parses_http_connect_proxy_request() {
    assert_eq!(proxy_dialect(b'C'), ProxyDialect::Http);
    let request = accepted(read_head(
        b"CONNECT example.com:8443 HTTP/1.1\r\nHost: example.com:8443\r\n\r\n",
        512,
    ));

    assert!(matches!(request.protocol, ProxyProtocol::HttpConnect));
    assert_eq!(request.host, "example.com");
    assert_eq!(request.port, 8443);
    assert!(request.preface.is_empty());
}

#[test]
fn rewrites_plain_http_proxy_request_to_origin_form() {
    let request = accepted(read_head(
        b"GET http://example.com:8080/path?q=1 HTTP/1.1\r\nHost: example.com:8080\r\nProxy-Connection: keep-alive\r\n\r\n",
        512,
    ));

    assert!(matches!(request.protocol, ProxyProtocol::HttpForward));
    assert_eq!(request.host, "example.com");
    assert_eq!(request.port, 8080);
    let preface = String::from_utf8(request.preface).unwrap();
    assert!(preface.starts_with("GET /path?q=1 HTTP/1.1\r\n"));
    assert!(!preface.to_ascii_lowercase().contains("proxy-connection"));
    assert_eq!(
        preface,
        "GET /path?q=1 HTTP/1.1\r\nHost: example.com:8080\r\n\r\n"
    );
}

#[test]
fn socks5_takes_addresses_of_every_kind() {
    let (_, end) = handshake(&[2, 9, 0, 5, 1, 7, 1, 192, 0, 2, 10, 0, 80]);
    match end {
        Some(Socks5Step::Accepted(request)) => {
            assert_eq!(request.host, "192.0.2.10");
            assert_eq!(request.port, 80);
        }
        other => panic!("{other:?}"),
    }
    let (sent, end) = handshake(&[
        1, 0, 5, 1, 0, 4, 0, 1, 2, 3, 4, 5, 6, 7, 8, 9, 10, 11, 12, 13, 14, 15,
    ]);
    assert_eq!(sent, [5, 0]);
    match end {
        Some(Socks5Step::WriteIpv6(octets)) => {
            assert_eq!(octets, (0..16).collect::<Vec<u8>>())
        }
        other => panic!("{other:?}"),
    }
    match socks5_step(Socks5State::Port("::1".to_string()), &[0xff, 0xff]) {
        Socks5Step::Accepted(request) => {
            assert_eq!((request.host.as_str(), request.port), ("::1", 65535))
        }
        other => panic!("{other:?}"),
    }
}

#[test]
fn socks5_refuses_what_it_does_not_do() {
    let failure = [5, 1, 0, 1, 0, 0, 0, 0, 0, 0];
    assert_eq!(socks5_failure_reply(), failure);
    let refused = |input: &[u8]| match handshake(input).1 {
        Some(Socks5Step::Refused(reply)) => reply,
        other => panic!("{other:?}"),
    };
    assert_eq!(refused(&[0]), [5, 0xff]);
    assert_eq!(refused(&[2, 1, 2]), [5, 0xff]);
    assert_eq!(refused(&[1, 0, 4, 1, 0, 1]), failure);
    assert_eq!(refused(&[1, 0, 5, 2, 0, 1]), failure);
    assert_eq!(refused(&[1, 0, 5, 1, 0, 2]), failure);
}

#[test]
fn socks5_domain_must_be_text() {
    match handshake(&[1, 0, 5, 1, 0, 3, 2, 0xc3, 0x28]).1 {
        Some(Socks5Step::Failed(reason)) => assert_eq!(reason, "Invalid SOCKS5 domain."),
        other => panic!("{other:?}"),
    }
    match handshake(&[1, 0, 5, 1, 0, 3, 2, 0xc3, 0xa9, 0, 1]).1 {
        Some(Socks5Step::Accepted(request)) => assert_eq!(request.host, "é"),
        other => panic!("{other:?}"),
    }
    assert!(handshake(&[1, 0, 5, 1, 0, 3, 9, b'a']).1.is_none());
}

#[test]
fn host_and_port_are_taken_apart() {
    let parsed = |value, port| parse_host_port(value, port);
    let is = |host: &str, port: u16| Ok((host.to_string(), port));
    assert_eq!(parsed("example.com:81", 80), is("example.com", 81));
    assert_eq!(parsed("example.com", 80), is("example.com", 80));
    assert_eq!(parsed("example.com:", 80), is("example.com:", 80));
    assert_eq!(parsed("example.com:+8", 80), is("example.com", 8));
    assert_eq!(parsed("example.com:-8", 80), is("example.com:-8", 80));
    assert_eq!(parsed("a:b:65535", 80), is("a:b", 65535));
    assert_eq!(parsed("a:65536", 80), is("a:65536", 80));
    assert_eq!(parsed("a:000080", 1), is("a", 80));
    assert_eq!(parsed("[::1]:8080", 80), is("::1", 8080));
    assert_eq!(parsed("[::1]", 443), is("::1", 443));
    assert_eq!(parsed("[::1]x", 443), is("::1", 443));
    assert_eq!(parsed("[::1]:x", 443), is("::1", 443));
    assert_eq!(
        parsed("[::1", 443),
        Err("Invalid IPv6 CONNECT target.".to_string())
    );
    assert_eq!(parsed("", 80), is("", 80));
}

#[test]
fn headers_for_the_proxy_do_not_go_on() {
    assert!(is_proxy_only_header("Proxy-Authorization"));
    assert!(is_proxy_only_header("PROXY-AUTHENTICATE"));
    assert!(is_proxy_only_header("proxy-connection"));
    assert!(!is_proxy_only_header("proxy-connection "));
    assert!(!is_proxy_only_header("Connection"));
    assert_eq!(
        forwardable_http_headers(
            b"GET / X\r\nA: 1\r\nProxy-Authorization: x\r\nno colon\r\nproxy-connection\r\n\r\nbody\r\n"
        )
        .unwrap(),
        b"A: 1\r\nno colon\r\n\r\n"
    );
    assert_eq!(
        forwardable_http_headers(b"GET / X\r\nA: 1").unwrap(),
        b"A: 1\r\n"
    );
    assert_eq!(
        forwardable_http_headers(b"GET / X\nA: 1").unwrap_err(),
        "Invalid HTTP proxy request."
    );
}

#[test]
fn invalid_bytes_in_headers_are_replaced() {
    assert_eq!(
        forwardable_http_headers(b"GET / X\r\nA: \xff1\r\n\r\n").unwrap(),
        "A: \u{fffd}1\r\n\r\n".as_bytes()
    );
}

#[test]
fn forwarding_headers_twice_changes_nothing_more() {
    let once = forwardable_http_headers(b"line\r\nA: 1\r\nProxy-Connection: x\r\n\r\n").unwrap();
    let mut again = b"line\r\n".to_vec();
    again.extend(&once);
    assert_eq!(forwardable_http_headers(&again).unwrap(), once);
}

#[test]
fn http_request_takes_defaults() {
    let request = accepted(http_request(b"connect example.com\r\n\r\n"));
    assert_eq!((request.host.as_str(), request.port), ("example.com", 443));

    let request = accepted(http_request(b"POST http://h\r\nA: b\r\n\r\n"));
    assert_eq!((request.host.as_str(), request.port), ("h", 80));
    assert_eq!(request.preface, b"POST / HTTP/1.1\r\nA: b\r\n\r\n");

    let request = accepted(http_request(b"GET http://h:1/a/b HTTP/1.0 x\r\n\r\n"));
    assert_eq!(request.port, 1);
    assert_eq!(request.preface, b"GET /a/b HTTP/1.0\r\n\r\n");

    assert_eq!(
        http_request(b"CONNECT [::1 HTTP/1.1\r\n\r\n").unwrap_err(),
        "Invalid IPv6 CONNECT target."
    );
}

#[test]
fn http_request_that_is_not_for_a_proxy_is_refused() {
    match http_request(b"GET /path HTTP/1.1\r\n\r\n") {
        Ok(ProxyOutcome::Refused(reply)) => assert_eq!(
            reply,
            b"HTTP/1.1 400 Bad Request\r\nConnection: close\r\nContent-Length: 0\r\n\r\n"
        ),
        other => panic!("{other:?}"),
    }
}

#[test]
fn head_is_read_to_its_end() {
    let request = b"CONNECT a:1 HTTP/1.1\r\nHost: a\r\n\r\n";
    for chunk in [1, 2, 3, 512] {
        assert_eq!(accepted(read_head(request, chunk)).port, 1);
    }
}

#[test]
fn head_that_is_too_long_is_refused() {
    let mut head = HttpHead::new(b'G');
    head.received(&[b'x'; 8191]);
    assert_eq!(head.request.len(), 8192);
    assert_eq!(head.step(), HeadStep::Read);
    head.received(b"x");
    assert_eq!(
        head.step(),
        HeadStep::Refuse(
            b"HTTP/1.1 413 Payload Too Large\r\nConnection: close\r\nContent-Length: 0\r\n\r\n"
                .to_vec()
        )
    );
    head.received(b"\r\n\r\n");
    assert_eq!(head.step(), HeadStep::Complete);
}

#[test]
fn clients_hear_of_success_in_their_protocol() {
    assert_eq!(
        proxy_success(ProxyProtocol::Socks5),
        [5, 0, 0, 1, 0, 0, 0, 0, 0, 0]
    );
    assert_eq!(
        proxy_success(ProxyProtocol::HttpConnect),
        b"HTTP/1.1 200 Connection Established\r\n\r\n"
    );
    assert!(proxy_success(ProxyProtocol::HttpForward).is_empty());
}

#[test]
fn ipv6_addresses_stand_in_brackets() {
    let request = accepted(http_request(b"CONNECT [2001:db8::1]:8443 HTTP/1.1\r\n\r\n"));
    assert_eq!((request.host.as_str(), request.port), ("2001:db8::1", 8443));
    let request = accepted(http_request(b"GET http://[::1]:81/x HTTP/1.1\r\nA: b\r\n\r\n"));
    assert_eq!((request.host.as_str(), request.port), ("::1", 81));
    assert_eq!(request.preface, b"GET /x HTTP/1.1\r\nA: b\r\n\r\n");
}
