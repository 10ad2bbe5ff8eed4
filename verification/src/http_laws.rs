//! What holds of HTTP proxy requests as a whole.
use vstd::prelude::*;
use vstd::utf8::*;
use crate::http;
use crate::http::{is_proxy_only_header, parse_host_port, HeadStep, HttpHead};
use crate::proxy;
use crate::proxy::{OutcomeModel, ProxyProtocol, RequestModel};
use crate::text;
use crate::text_laws;

verus! {

/// A host and a port joined by a colon are taken apart again, whatever the
/// default port, unless the host begins with a bracket. This holds of hosts with
/// colons too.
pub proof fn law_host_port(host: Seq<char>, port: u16, default_port: u16)
    requires
        host.len() > 0 ==> host[0] != '[',
    ensures
        http::host_port(host + ":"@ + text::decimal(port as nat), default_port) == Ok::<
            (Seq<char>, u16),
            Seq<char>,
        >((host, port)),
{
    reveal_strlit(":");
    let digits = text::decimal(port as nat);
    assert(":"@ == seq![':']);
    text_laws::lemma_decimal_has_no(port as nat, ':');
    text_laws::lemma_split_last(host, ':', digits);
    text_laws::law_port_round_trip(port);
    let value = host + ":"@ + digits;
    assert(value[0] != '[');
}

/// A bracketed host and a port joined by a colon are taken apart again; without
/// a port the default goes with the host.
pub proof fn law_bracketed_host_port(host: Seq<char>, port: u16, default_port: u16)
    requires
        !host.contains(']'),
    ensures
        http::host_port("["@ + host + "]:"@ + text::decimal(port as nat), default_port) == Ok::<
            (Seq<char>, u16),
            Seq<char>,
        >((host, port)),
        http::host_port("["@ + host + "]"@, default_port) == Ok::<(Seq<char>, u16), Seq<char>>(
            (host, default_port),
        ),
{
    reveal_strlit("[");
    reveal_strlit("]:");
    reveal_strlit("]");
    let digits = text::decimal(port as nat);
    text_laws::law_port_round_trip(port);
    let value = "["@ + host + "]:"@ + digits;
    let rest = seq![':'] + digits;
    assert(value.skip(1) == host + seq![']'] + rest);
    text_laws::lemma_split_once_char(host, ']', rest);
    assert(rest.skip(1) == digits);
    let bare = "["@ + host + "]"@;
    assert(bare.skip(1) == host + seq![']'] + Seq::<char>::empty());
    text_laws::lemma_split_once_char(host, ']', Seq::empty());
}

proof fn lemma_request_line(line: Seq<char>, rest: Seq<char>)
    requires
        !line.contains('\n'),
    ensures
        http::request_line(line + "\r\n"@ + rest) == line,
{
    reveal_strlit("\r\n");
    let s = line + "\r\n"@ + rest;
    let before = line.push('\r');
    assert forall|i: int| 0 <= i < before.len() implies before[i] != '\n' by {
        if i < line.len() {
            assert(line.contains(line[i]));
        }
    }
    assert(s == before + seq!['\n'] + rest);
    text_laws::lemma_split_once_char(before, '\n', rest);
    let k = text::find(s, seq!['\n'])->0;
    text::lemma_find_from(s, seq!['\n'], 0);
    assert(s.take(k) == before);
    assert(before.drop_last() == line);
    assert(text::lines(s)[0] == text::strip_cr(before));
}

proof fn lemma_request_words(method: Seq<char>, target: Seq<char>, version: Seq<char>)
    requires
        text_laws::unspaced(method) && method.len() > 0,
        text_laws::unspaced(target) && target.len() > 0,
        text_laws::unspaced(version) && version.len() > 0,
    ensures
        http::request_words(method + " "@ + target + " "@ + version) == (method, target, version),
{
    reveal_strlit(" ");
    let empty = Seq::<char>::empty();
    let last = seq![' '] + (version + empty);
    let middle = seq![' '] + (target + last);
    assert(method + " "@ + target + " "@ + version == method + middle);
    text_laws::lemma_first_word(method, middle);
    text_laws::lemma_first_word(target, last);
    text_laws::lemma_first_word(version, empty);
}

proof fn lemma_line_unbroken(method: Seq<char>, target: Seq<char>, version: Seq<char>)
    requires
        text_laws::unspaced(method),
        text_laws::unspaced(target),
        text_laws::unspaced(version),
    ensures
        !(method + " "@ + target + " "@ + version).contains('\n'),
        !(method + " "@ + target + " "@ + version).contains('\r'),
{
    reveal_strlit(" ");
    let line = method + " "@ + target + " "@ + version;
    assert forall|i: int| 0 <= i < line.len() implies line[i] != '\n' && line[i] != '\r' by {
        let a = method.len() as int;
        let b = a + 1 + target.len();
        if i < a {
            assert(line[i] == method[i]);
        } else if a < i < b {
            assert(line[i] == target[i - a - 1]);
        } else if b < i {
            assert(line[i] == version[i - b - 1]);
        }
    }
}

proof fn lemma_connect(
    method: Seq<char>,
    target: Seq<char>,
    version: Seq<char>,
    rest: Seq<char>,
    host: Seq<char>,
    port: u16,
)
    requires
        text_laws::unspaced(method) && method.len() > 0,
        text::lower(method) == text::lower("CONNECT"@),
        text_laws::unspaced(target) && target.len() > 0,
        text_laws::unspaced(version) && version.len() > 0,
        http::host_port(target, 443) == Ok::<(Seq<char>, u16), Seq<char>>((host, port)),
    ensures
        http::http_outcome(method + " "@ + target + " "@ + version + "\r\n"@ + rest) == Ok::<
            OutcomeModel,
            Seq<char>,
        >(
            OutcomeModel::Accepted(
                RequestModel {
                    protocol: ProxyProtocol::HttpConnect,
                    host,
                    port,
                    preface: Seq::empty(),
                },
            ),
        ),
{
    lemma_line_unbroken(method, target, version);
    lemma_request_line(method + " "@ + target + " "@ + version, rest);
    lemma_request_words(method, target, version);
}

/// A host and a port as they stand in a request.
pub open spec fn plain_authority(host: Seq<char>, port: u16) -> Seq<char> {
    host + ":"@ + text::decimal(port as nat)
}

/// An IPv6 address and a port as they stand in a request.
pub open spec fn bracketed_authority(host: Seq<char>, port: u16) -> Seq<char> {
    "["@ + host + "]:"@ + text::decimal(port as nat)
}

proof fn lemma_plain_authority(host: Seq<char>, port: u16)
    requires
        text_laws::unspaced(host),
    ensures
        text_laws::unspaced(plain_authority(host, port)),
        !host.contains('/') ==> !plain_authority(host, port).contains('/'),
{
    reveal_strlit(":");
    let digits = text::decimal(port as nat);
    let authority = plain_authority(host, port);
    text_laws::lemma_unspaced_decimal(port as nat);
    text_laws::lemma_decimal_has_no(port as nat, '/');
    assert(text_laws::unspaced(":"@));
    text_laws::lemma_unspaced_join(host, ":"@);
    text_laws::lemma_unspaced_join(host + ":"@, digits);
    assert(authority.contains('/') ==> host.contains('/')) by {
        if authority.contains('/') {
            let i = authority.index_of('/');
            if i < host.len() {
                assert(host[i] == '/');
            } else if i > host.len() {
                assert(digits[i - host.len() - 1] == '/');
            }
        }
    }
}

proof fn lemma_bracketed_authority(host: Seq<char>, port: u16)
    requires
        text_laws::unspaced(host),
    ensures
        text_laws::unspaced(bracketed_authority(host, port)),
        !host.contains('/') ==> !bracketed_authority(host, port).contains('/'),
{
    reveal_strlit("[");
    reveal_strlit("]:");
    let digits = text::decimal(port as nat);
    let authority = bracketed_authority(host, port);
    text_laws::lemma_unspaced_decimal(port as nat);
    text_laws::lemma_decimal_has_no(port as nat, '/');
    assert(text_laws::unspaced("["@));
    assert(text_laws::unspaced("]:"@));
    text_laws::lemma_unspaced_join("["@, host);
    text_laws::lemma_unspaced_join("["@ + host, "]:"@);
    text_laws::lemma_unspaced_join("["@ + host + "]:"@, digits);
    assert(authority.contains('/') ==> host.contains('/')) by {
        if authority.contains('/') {
            let i = authority.index_of('/');
            if 1 <= i <= host.len() {
                assert(host[i - 1] == '/');
            } else if i > host.len() + 2 {
                assert(digits[i - host.len() - 3] == '/');
            }
        }
    }
}

/// A `CONNECT` request, in any case of letters, is accepted for the very host
/// and port that it names, as long as the host does not begin with a bracket, and
/// nothing of it goes on to the host.
pub proof fn law_connect_request(
    method: Seq<char>,
    host: Seq<char>,
    port: u16,
    version: Seq<char>,
    rest: Seq<char>,
)
    requires
        text_laws::unspaced(method) && method.len() > 0,
        text::lower(method) == text::lower("CONNECT"@),
        text_laws::unspaced(host),
        host.len() > 0 ==> host[0] != '[',
        text_laws::unspaced(version) && version.len() > 0,
    ensures
        http::http_outcome(
            method + " "@ + plain_authority(host, port) + " "@ + version + "\r\n"@ + rest,
        ) == Ok::<OutcomeModel, Seq<char>>(
            OutcomeModel::Accepted(
                RequestModel {
                    protocol: ProxyProtocol::HttpConnect,
                    host,
                    port,
                    preface: Seq::empty(),
                },
            ),
        ),
{
    reveal_strlit(":");
    lemma_plain_authority(host, port);
    law_host_port(host, port, 443);
    lemma_connect(method, plain_authority(host, port), version, rest, host, port);
}

/// A `CONNECT` request for an IPv6 address in brackets is accepted for the address
/// and the port.
pub proof fn law_connect_request_in_brackets(
    method: Seq<char>,
    host: Seq<char>,
    port: u16,
    version: Seq<char>,
    rest: Seq<char>,
)
    requires
        text_laws::unspaced(method) && method.len() > 0,
        text::lower(method) == text::lower("CONNECT"@),
        text_laws::unspaced(host) && !host.contains(']'),
        text_laws::unspaced(version) && version.len() > 0,
    ensures
        http::http_outcome(
            method + " "@ + bracketed_authority(host, port) + " "@ + version + "\r\n"@ + rest,
        ) == Ok::<OutcomeModel, Seq<char>>(
            OutcomeModel::Accepted(
                RequestModel {
                    protocol: ProxyProtocol::HttpConnect,
                    host,
                    port,
                    preface: Seq::empty(),
                },
            ),
        ),
{
    reveal_strlit("[");
    lemma_bracketed_authority(host, port);
    law_bracketed_host_port(host, port, 443);
    lemma_connect(method, bracketed_authority(host, port), version, rest, host, port);
}

/// A request that neither asks for a connection nor names an `http` target in full
/// is turned away with a status of 400, whatever else it holds.
pub proof fn law_other_requests_are_refused(
    method: Seq<char>,
    target: Seq<char>,
    version: Seq<char>,
    rest: Seq<char>,
)
    requires
        text_laws::unspaced(method) && method.len() > 0,
        text::lower(method) != text::lower("CONNECT"@),
        text_laws::unspaced(target) && target.len() > 0,
        !text::occurs_at(target, "http://"@, 0),
        text_laws::unspaced(version) && version.len() > 0,
    ensures
        http::http_outcome(method + " "@ + target + " "@ + version + "\r\n"@ + rest) == Ok::<
            OutcomeModel,
            Seq<char>,
        >(OutcomeModel::Refused(proxy::http_error("400 Bad Request"@))),
{
    lemma_line_unbroken(method, target, version);
    lemma_request_line(method + " "@ + target + " "@ + version, rest);
    lemma_request_words(method, target, version);
}

proof fn lemma_split_once_crlf(a: Seq<char>, b: Seq<char>)
    requires
        !text::contains(a, "\r\n"@),
    ensures
        text::split_once(a + "\r\n"@ + b, "\r\n"@) == Some((a, b)),
{
    reveal_strlit("\r\n");
    let end = "\r\n"@;
    let s = a + end + b;
    let k = a.len() as int;
    assert(s.subrange(k, k + 2) == end);
    assert forall|j: int| 0 <= j < k implies !text::occurs_at(s, end, j) by {
        if text::occurs_at(s, end, j) {
            let w = s.subrange(j, j + 2);
            assert(w[0] == '\r' && w[1] == '\n');
            assert(s[j] == w[0] && s[j + 1] == w[1]);
            if j + 2 <= k {
                assert(a.subrange(j, j + 2) == end);
                assert(text::occurs_at(a, end, j));
            } else {
                assert(s[k] == '\r');
            }
        }
    }
    text::lemma_find_at(s, end, 0, k);
    assert(s.take(k) == a);
    assert(s.skip(k + 2) == b);
}

/// What a host gets of a request in absolute form: the same method, path and
/// version in origin form, and the headers that are not meant for the proxy.
pub open spec fn origin_form(
    method: Seq<char>,
    path: Seq<char>,
    version: Seq<char>,
    headers: Seq<char>,
) -> Seq<u8> {
    encode_utf8(method + " "@ + ("/"@ + path) + " "@ + version + "\r\n"@) + encode_utf8(
        http::forwarded(text::split(headers, "\r\n"@)),
    )
}

proof fn lemma_origin(
    method: Seq<char>,
    authority: Seq<char>,
    path: Seq<char>,
    version: Seq<char>,
    headers: Seq<char>,
    host: Seq<char>,
    port: u16,
)
    requires
        text_laws::unspaced(method) && method.len() > 0,
        text::lower(method) != text::lower("CONNECT"@),
        text_laws::unspaced(authority) && !authority.contains('/'),
        text_laws::unspaced(path),
        text_laws::unspaced(version) && version.len() > 0,
        http::host_port(authority, 80) == Ok::<(Seq<char>, u16), Seq<char>>((host, port)),
    ensures
        http::http_outcome(
            method + " "@ + ("http://"@ + authority + "/"@ + path) + " "@ + version + "\r\n"@
                + headers,
        ) == Ok::<OutcomeModel, Seq<char>>(
            OutcomeModel::Accepted(
                RequestModel {
                    protocol: ProxyProtocol::HttpForward,
                    host,
                    port,
                    preface: origin_form(method, path, version, headers),
                },
            ),
        ),
{
    reveal_strlit("/");
    reveal_strlit("http://");
    reveal_strlit("\r\n");
    let scheme = "http://"@;
    let target = scheme + authority + "/"@ + path;
    assert(text_laws::unspaced("/"@));
    assert(text_laws::unspaced(scheme));
    text_laws::lemma_unspaced_join(scheme, authority);
    text_laws::lemma_unspaced_join(scheme + authority, "/"@);
    text_laws::lemma_unspaced_join(scheme + authority + "/"@, path);
    let line = method + " "@ + target + " "@ + version;
    lemma_line_unbroken(method, target, version);
    lemma_request_line(line, headers);
    lemma_request_words(method, target, version);
    assert(target.subrange(0, scheme.len() as int) == scheme);
    let stripped = target.skip(scheme.len() as int);
    assert(stripped == authority + seq!['/'] + path);
    text_laws::lemma_split_once_char(authority, '/', path);
    assert(!text::contains(line, "\r\n"@)) by {
        assert forall|j: int| !text::occurs_at(line, "\r\n"@, j) by {
            if text::occurs_at(line, "\r\n"@, j) {
                assert(line.subrange(j, j + 2)[0] == '\r');
                assert(line.contains(line[j]));
            }
        }
    }
    lemma_split_once_crlf(line, headers);
}

/// A request in absolute form is accepted for the very host and port that it
/// names, as long as the host does not begin with a bracket; the host gets it in
/// origin form, with the same method, path and version, followed by the headers
/// that are not meant for the proxy.
pub proof fn law_origin_form(
    method: Seq<char>,
    host: Seq<char>,
    port: u16,
    path: Seq<char>,
    version: Seq<char>,
    headers: Seq<char>,
)
    requires
        text_laws::unspaced(method) && method.len() > 0,
        text::lower(method) != text::lower("CONNECT"@),
        text_laws::unspaced(host) && !host.contains('/'),
        host.len() > 0 ==> host[0] != '[',
        text_laws::unspaced(path),
        text_laws::unspaced(version) && version.len() > 0,
    ensures
        http::http_outcome(
            method + " "@ + ("http://"@ + plain_authority(host, port) + "/"@ + path) + " "@
                + version + "\r\n"@ + headers,
        ) == Ok::<OutcomeModel, Seq<char>>(
            OutcomeModel::Accepted(
                RequestModel {
                    protocol: ProxyProtocol::HttpForward,
                    host,
                    port,
                    preface: origin_form(method, path, version, headers),
                },
            ),
        ),
{
    lemma_plain_authority(host, port);
    law_host_port(host, port, 80);
    lemma_origin(method, plain_authority(host, port), path, version, headers, host, port);
}

/// A request in absolute form for an IPv6 address in brackets is accepted for the
/// address and the port, and goes on in origin form too.
pub proof fn law_origin_form_in_brackets(
    method: Seq<char>,
    host: Seq<char>,
    port: u16,
    path: Seq<char>,
    version: Seq<char>,
    headers: Seq<char>,
)
    requires
        text_laws::unspaced(method) && method.len() > 0,
        text::lower(method) != text::lower("CONNECT"@),
        text_laws::unspaced(host) && !host.contains('/') && !host.contains(']'),
        text_laws::unspaced(path),
        text_laws::unspaced(version) && version.len() > 0,
    ensures
        http::http_outcome(
            method + " "@ + ("http://"@ + bracketed_authority(host, port) + "/"@ + path) + " "@
                + version + "\r\n"@ + headers,
        ) == Ok::<OutcomeModel, Seq<char>>(
            OutcomeModel::Accepted(
                RequestModel {
                    protocol: ProxyProtocol::HttpForward,
                    host,
                    port,
                    preface: origin_form(method, path, version, headers),
                },
            ),
        ),
{
    lemma_bracketed_authority(host, port);
    law_bracketed_host_port(host, port, 80);
    lemma_origin(method, bracketed_authority(host, port), path, version, headers, host, port);
}

/// The header lines of a request: those before the first empty one.
pub open spec fn header_block(lines: Seq<Seq<char>>) -> Seq<Seq<char>>
    decreases lines.len(),
{
    if lines.len() == 0 || lines[0].len() == 0 {
        Seq::empty()
    } else {
        seq![lines[0]] + header_block(lines.skip(1))
    }
}

/// The header lines that are not meant for the proxy.
pub open spec fn kept(lines: Seq<Seq<char>>) -> Seq<Seq<char>> {
    header_block(lines).filter(|line: Seq<char>| !http::proxy_only(http::header_name(line)))
}

/// An empty line ends the headers.
pub open spec fn ended(lines: Seq<Seq<char>>) -> bool {
    header_block(lines).len() < lines.len()
}

/// Each line followed by a line end.
pub open spec fn written(lines: Seq<Seq<char>>) -> Seq<char>
    decreases lines.len(),
{
    if lines.len() == 0 {
        Seq::empty()
    } else {
        lines[0] + "\r\n"@ + written(lines.skip(1))
    }
}

/// What follows the last kept line when the forwarded text is split again.
pub open spec fn closing(lines: Seq<Seq<char>>) -> Seq<Seq<char>> {
    if ended(lines) {
        seq![Seq::empty(), Seq::empty()]
    } else {
        seq![Seq::empty()]
    }
}

/// No line holds a line end.
pub open spec fn unbroken(lines: Seq<Seq<char>>) -> bool {
    forall|i: int| 0 <= i < lines.len() ==> !text::contains(#[trigger] lines[i], "\r\n"@)
}

proof fn lemma_pieces_unbroken(s: Seq<char>)
    ensures
        unbroken(text::split(s, "\r\n"@)),
    decreases s.len(),
{
    reveal_strlit("\r\n");
    let end = "\r\n"@;
    text::lemma_find_from(s, end, 0);
    match text::find(s, end) {
        Some(i) => {
            let tail = s.skip(i + 2);
            lemma_pieces_unbroken(tail);
            let first = s.take(i);
            assert forall|j: int| !text::occurs_at(first, end, j) by {
                if text::occurs_at(first, end, j) {
                    assert(s.subrange(j, j + 2) == first.subrange(j, j + 2));
                    assert(text::occurs_at(s, end, j));
                }
            }
            let all = text::split(s, end);
            assert forall|k: int| 0 <= k < all.len() implies !text::contains(
                #[trigger] all[k],
                end,
            ) by {
                if k > 0 {
                    assert(all[k] == text::split(tail, end)[k - 1]);
                }
            }
        },
        None => {},
    }
}

proof fn lemma_kept_step(lines: Seq<Seq<char>>)
    requires
        lines.len() > 0,
        lines[0].len() > 0,
    ensures
        kept(lines) == (if http::proxy_only(http::header_name(lines[0])) {
            kept(lines.skip(1))
        } else {
            seq![lines[0]] + kept(lines.skip(1))
        }),
        ended(lines) == ended(lines.skip(1)),
{
    let keep = |line: Seq<char>| !http::proxy_only(http::header_name(line));
    let one = seq![lines[0]];
    Seq::filter_distributes_over_add(one, header_block(lines.skip(1)), keep);
    reveal(Seq::filter);
    assert(one.drop_last() == Seq::<Seq<char>>::empty());
    assert(one.drop_last().filter(keep) == Seq::<Seq<char>>::empty());
    assert(one.filter(keep) == if keep(lines[0]) {
        one
    } else {
        Seq::<Seq<char>>::empty()
    });
    assert(Seq::<Seq<char>>::empty() + kept(lines.skip(1)) == kept(lines.skip(1)));
}

proof fn lemma_kept_none(lines: Seq<Seq<char>>)
    requires
        lines.len() == 0 || lines[0].len() == 0,
    ensures
        kept(lines) == Seq::<Seq<char>>::empty(),
        ended(lines) == (lines.len() > 0),
{
    reveal(Seq::filter);
}

/// The forwarded text is each header line that is not meant for the proxy, in
/// order, with its line end, and the empty line if the request had one.
pub proof fn law_forwarded_text(lines: Seq<Seq<char>>)
    ensures
        http::forwarded(lines) == written(kept(lines)) + (if ended(lines) {
            "\r\n"@
        } else {
            Seq::empty()
        }),
    decreases lines.len(),
{
    if lines.len() == 0 || lines[0].len() == 0 {
        lemma_kept_none(lines);
        assert(written(kept(lines)) == Seq::<char>::empty());
    } else {
        let rest = lines.skip(1);
        law_forwarded_text(rest);
        lemma_kept_step(lines);
        if !http::proxy_only(http::header_name(lines[0])) {
            assert(kept(lines).skip(1) == kept(rest));
            assert(kept(lines)[0] == lines[0]);
        }
    }
}

pub proof fn lemma_split_line(line: Seq<char>, rest: Seq<char>)
    requires
        !text::contains(line, "\r\n"@),
    ensures
        text::split(line + "\r\n"@ + rest, "\r\n"@) == seq![line] + text::split(rest, "\r\n"@),
{
    reveal_strlit("\r\n");
    lemma_split_once_crlf(line, rest);
}

pub proof fn lemma_split_empty()
    ensures
        text::split(Seq::<char>::empty(), "\r\n"@) == seq![Seq::<char>::empty()],
{
    reveal_strlit("\r\n");
    text::lemma_find_from(Seq::<char>::empty(), "\r\n"@, 0);
}

proof fn lemma_split_forwarded(lines: Seq<Seq<char>>)
    requires
        unbroken(lines),
    ensures
        text::split(http::forwarded(lines), "\r\n"@) == kept(lines) + closing(lines),
    decreases lines.len(),
{
    let none = Seq::<char>::empty();
    if lines.len() == 0 {
        lemma_kept_none(lines);
        lemma_split_empty();
        assert(kept(lines) + closing(lines) == closing(lines));
    } else if lines[0].len() == 0 {
        lemma_kept_none(lines);
        lemma_split_empty();
        assert(!text::contains(none, "\r\n"@)) by {
            reveal_strlit("\r\n");
        }
        lemma_split_line(none, none);
        assert(none + "\r\n"@ + none == "\r\n"@);
        assert(kept(lines) + closing(lines) == closing(lines));
        assert(seq![none] + seq![none] == closing(lines));
    } else {
        let rest = lines.skip(1);
        assert forall|i: int| 0 <= i < rest.len() implies !text::contains(
            #[trigger] rest[i],
            "\r\n"@,
        ) by {
            assert(rest[i] == lines[i + 1]);
        }
        lemma_split_forwarded(rest);
        lemma_kept_step(lines);
        if !http::proxy_only(http::header_name(lines[0])) {
            assert(!text::contains(lines[0], "\r\n"@));
            lemma_split_line(lines[0], http::forwarded(rest));
            assert(seq![lines[0]] + (kept(rest) + closing(rest)) == kept(lines) + closing(lines));
        }
    }
}

/// Read as lines again, the forwarded text gives exactly the header lines that
/// are not meant for the proxy, in order, and its closing line.
pub proof fn law_forwarded_lines(headers: Seq<char>)
    ensures
        text::split(http::forwarded(text::split(headers, "\r\n"@)), "\r\n"@) == kept(
            text::split(headers, "\r\n"@),
        ) + closing(text::split(headers, "\r\n"@)),
{
    lemma_pieces_unbroken(headers);
    lemma_split_forwarded(text::split(headers, "\r\n"@));
}

/// Among the forwarded lines none is meant for the proxy, and every header line
/// that is not meant for the proxy is among them.
pub proof fn law_only_proxy_headers_dropped(lines: Seq<Seq<char>>, line: Seq<char>)
    ensures
        kept(lines).contains(line) <==> header_block(lines).contains(line) && !http::proxy_only(
            http::header_name(line),
        ),
{
    broadcast use vstd::seq_lib::group_filter_ensures;

    let keep = |line: Seq<char>| !http::proxy_only(http::header_name(line));
    if header_block(lines).contains(line) && keep(line) {
        let i = header_block(lines).index_of(line);
        assert(header_block(lines)[i] == line);
    }
    if kept(lines).contains(line) {
        let k = kept(lines).index_of(line);
        assert(keep(kept(lines)[k]));
        header_block(lines).lemma_filter_contains_rev(keep, line);
    }
}

/// Headers that end with an empty line are forwarded a second time unchanged.
pub proof fn law_forwarding_twice(headers: Seq<char>)
    requires
        ended(text::split(headers, "\r\n"@)),
    ensures
        http::forwarded(text::split(http::forwarded(text::split(headers, "\r\n"@)), "\r\n"@))
            == http::forwarded(text::split(headers, "\r\n"@)),
{
    let lines = text::split(headers, "\r\n"@);
    law_forwarded_lines(headers);
    lemma_kept_full(lines);
    lemma_forward_kept(kept(lines));
    law_forwarded_text(lines);
}

proof fn lemma_kept_full(lines: Seq<Seq<char>>)
    ensures
        forall|i: int|
            0 <= i < kept(lines).len() ==> (#[trigger] kept(lines)[i]).len() > 0
                && !http::proxy_only(http::header_name(kept(lines)[i])),
    decreases lines.len(),
{
    if lines.len() == 0 || lines[0].len() == 0 {
        lemma_kept_none(lines);
    } else {
        lemma_kept_step(lines);
        lemma_kept_full(lines.skip(1));
        let rest = kept(lines.skip(1));
        assert forall|i: int| 0 <= i < kept(lines).len() implies (#[trigger] kept(lines)[i]).len()
            > 0 && !http::proxy_only(http::header_name(kept(lines)[i])) by {
            if !http::proxy_only(http::header_name(lines[0])) && i > 0 {
                assert(kept(lines)[i] == rest[i - 1]);
            } else if http::proxy_only(http::header_name(lines[0])) {
                assert(kept(lines)[i] == rest[i]);
            }
        }
    }
}

proof fn lemma_forward_kept(lines: Seq<Seq<char>>)
    requires
        forall|i: int|
            0 <= i < lines.len() ==> (#[trigger] lines[i]).len() > 0 && !http::proxy_only(
                http::header_name(lines[i]),
            ),
    ensures
        http::forwarded(lines + seq![Seq::<char>::empty(), Seq::<char>::empty()]) == written(lines)
            + "\r\n"@,
    decreases lines.len(),
{
    let end = seq![Seq::<char>::empty(), Seq::<char>::empty()];
    let all = lines + end;
    if lines.len() == 0 {
        assert(all == end);
    } else {
        assert(lines[0].len() > 0);
        assert(all[0] == lines[0]);
        let rest = lines.skip(1);
        assert(all.skip(1) == rest + end);
        assert forall|i: int| 0 <= i < rest.len() implies (#[trigger] rest[i]).len() > 0
            && !http::proxy_only(http::header_name(rest[i])) by {
            assert(rest[i] == lines[i + 1]);
        }
        lemma_forward_kept(rest);
    }
}

/// `name` is one of the three names of headers that are meant for a proxy, each
/// letter small or capital.
pub open spec fn spells_proxy_header(name: Seq<char>) -> bool {
    ||| text_laws::spelled(name, "proxy-connection"@)
    ||| text_laws::spelled(name, "proxy-authenticate"@)
    ||| text_laws::spelled(name, "proxy-authorization"@)
}

/// The headers meant for the proxy are those named Proxy-Connection,
/// Proxy-Authenticate and Proxy-Authorization in any case of letters, and no
/// others; above all none whose name does not begin with `proxy-`.
pub proof fn law_proxy_header_names(name: Seq<char>)
    ensures
        http::proxy_only(name) <==> spells_proxy_header(name),
        http::proxy_only(name) ==> name.len() >= 6 && text_laws::spelled(name.take(6), "proxy-"@),
{
    reveal_strlit("proxy-connection");
    reveal_strlit("proxy-authenticate");
    reveal_strlit("proxy-authorization");
    reveal_strlit("proxy-");
    text_laws::law_spelling(name, "proxy-connection"@);
    text_laws::law_spelling(name, "proxy-authenticate"@);
    text_laws::law_spelling(name, "proxy-authorization"@);
    assert("proxy-connection"@.take(6) =~= "proxy-"@);
    assert("proxy-authenticate"@.take(6) =~= "proxy-"@);
    assert("proxy-authorization"@.take(6) =~= "proxy-"@);
    lemma_spelled_beginning(name, "proxy-connection"@);
    lemma_spelled_beginning(name, "proxy-authenticate"@);
    lemma_spelled_beginning(name, "proxy-authorization"@);
}

proof fn lemma_spelled_beginning(name: Seq<char>, word: Seq<char>)
    requires
        word.len() >= 6,
        word.take(6) == "proxy-"@,
    ensures
        text_laws::spelled(name, word) ==> text_laws::spelled(name.take(6), "proxy-"@),
{
    if text_laws::spelled(name, word) {
        let first = "proxy-"@;
        assert forall|i: int| 0 <= i < first.len() implies name.take(6)[i] == #[trigger] first[i]
            || (97 <= first[i] as int <= 122 && name.take(6)[i] as int == first[i] as int - 32) by {
            assert(word.take(6)[i] == word[i]);
            assert(name[i] == word[i] || (97 <= word[i] as int <= 122 && name[i] as int
                == word[i] as int - 32));
        }
    }
}

/// A header line is its name, and perhaps a colon and a value; the name holds no
/// colon.
pub open spec fn line_named(line: Seq<char>, name: Seq<char>) -> bool {
    &&& !name.contains(':')
    &&& line == name || exists|value: Seq<char>| line == #[trigger] (name + ":"@ + value)
}

proof fn lemma_header_name(line: Seq<char>, name: Seq<char>)
    requires
        line_named(line, name),
    ensures
        http::header_name(line) == name,
{
    reveal_strlit(":");
    assert(":"@ =~= seq![':']);
    if line == name {
        text_laws::lemma_split_char(name, ':', name);
        text::lemma_find_from(name, seq![':'], 0);
        if text::find(name, seq![':']) is Some {
            let k = text::find(name, seq![':'])->0;
            assert(name.subrange(k, k + 1)[0] == ':');
            assert(name[k] == ':');
        }
    } else {
        let value = choose|value: Seq<char>| line == #[trigger] (name + ":"@ + value);
        text_laws::lemma_split_once_char(name, ':', value);
    }
}

proof fn lemma_in_header_block(lines: Seq<Seq<char>>, i: int)
    requires
        0 <= i < lines.len(),
        forall|j: int| 0 <= j <= i ==> (#[trigger] lines[j]).len() > 0,
    ensures
        i < header_block(lines).len(),
        header_block(lines)[i] == lines[i],
    decreases lines.len(),
{
    let first = lines[0];
    let rest = lines.skip(1);
    assert(first.len() > 0);
    assert(header_block(lines) == seq![first] + header_block(rest));
    if i > 0 {
        assert forall|j: int| 0 <= j <= i - 1 implies (#[trigger] rest[j]).len() > 0 by {
            assert(rest[j] == lines[j + 1]);
        }
        lemma_in_header_block(rest, i - 1);
    }
}

proof fn lemma_written_holds(lines: Seq<Seq<char>>, i: int)
    requires
        0 <= i < lines.len(),
    ensures
        exists|a: Seq<char>, b: Seq<char>| written(lines) == #[trigger] (a + (lines[i] + "\r\n"@)
            + b),
    decreases lines.len(),
{
    let none = Seq::<char>::empty();
    let rest = lines.skip(1);
    let end = "\r\n"@;
    if i == 0 {
        assert(written(lines) =~= none + (lines[0] + end) + written(rest));
    } else {
        lemma_written_holds(rest, i - 1);
        assert(rest[i - 1] == lines[i]);
        let (a, b) = choose|a: Seq<char>, b: Seq<char>|
            written(rest) == #[trigger] (a + (lines[i] + end) + b);
        let before = lines[0] + end + a;
        assert(written(lines) =~= before + (lines[i] + end) + b);
    }
}

/// Of the header lines of a request, those before its first empty line, every one
/// stands in the forwarded text with its line end unless it is named
/// Proxy-Connection, Proxy-Authenticate or Proxy-Authorization in any case of
/// letters; and of those three none is a line of the forwarded text.
pub proof fn law_header_lines_are_forwarded(headers: Seq<char>, i: int, name: Seq<char>)
    requires
        ({
            let lines = text::split(headers, "\r\n"@);
            &&& 0 <= i < lines.len()
            &&& forall|j: int| 0 <= j <= i ==> (#[trigger] lines[j]).len() > 0
            &&& line_named(lines[i], name)
        }),
    ensures
        ({
            let lines = text::split(headers, "\r\n"@);
            let sent = http::forwarded(lines);
            &&& !spells_proxy_header(name) ==> exists|a: Seq<char>, b: Seq<char>|
                sent == #[trigger] (a + (lines[i] + "\r\n"@) + b)
            &&& text::split(sent, "\r\n"@).contains(lines[i]) <==> !spells_proxy_header(name)
        }),
{
    let lines = text::split(headers, "\r\n"@);
    let line = lines[i];
    let sent = http::forwarded(lines);
    let end = "\r\n"@;
    lemma_header_name(line, name);
    law_proxy_header_names(name);
    lemma_in_header_block(lines, i);
    assert(header_block(lines)[i] == line);
    law_only_proxy_headers_dropped(lines, line);
    law_forwarded_lines(headers);
    law_forwarded_text(lines);
    let again = text::split(sent, end);
    let some = kept(lines);
    if !spells_proxy_header(name) {
        let k = some.index_of(line);
        lemma_written_holds(some, k);
        let (a, b) = choose|a: Seq<char>, b: Seq<char>|
            written(some) == #[trigger] (a + (line + end) + b);
        let tail = if ended(lines) {
            end
        } else {
            Seq::<char>::empty()
        };
        let after = b + tail;
        assert(sent =~= a + (line + end) + after);
        assert(again[k] == line);
    }
    if again.contains(line) {
        let k = again.index_of(line);
        if k >= some.len() {
            assert(again[k] == closing(lines)[k - some.len()]);
            assert(again[k].len() == 0);
        } else {
            assert(some[k] == line);
        }
    }
}

/// A header whose name does not begin with `proxy-`, in any case of letters, is
/// always forwarded.
pub proof fn law_other_headers_are_forwarded(headers: Seq<char>, i: int, name: Seq<char>)
    requires
        ({
            let lines = text::split(headers, "\r\n"@);
            &&& 0 <= i < lines.len()
            &&& forall|j: int| 0 <= j <= i ==> (#[trigger] lines[j]).len() > 0
            &&& line_named(lines[i], name)
        }),
        name.len() < 6 || !text_laws::spelled(name.take(6), "proxy-"@),
    ensures
        ({
            let lines = text::split(headers, "\r\n"@);
            exists|a: Seq<char>, b: Seq<char>|
                http::forwarded(lines) == #[trigger] (a + (lines[i] + "\r\n"@) + b)
        }),
{
    law_proxy_header_names(name);
    law_header_lines_are_forwarded(headers, i, name);
}

/// The headers of a request are what follows its first line; a text without a line
/// end is no request.
pub proof fn law_headers_follow_the_first_line(line: Seq<char>, headers: Seq<char>)
    requires
        !text::contains(line, "\r\n"@),
    ensures
        http::forwarded_headers(line + "\r\n"@ + headers) == Ok::<Seq<char>, Seq<char>>(
            http::forwarded(text::split(headers, "\r\n"@)),
        ),
        http::forwarded_headers(line) == Err::<Seq<char>, Seq<char>>(
            "Invalid HTTP proxy request."@,
        ),
{
    lemma_split_once_crlf(line, headers);
    text::lemma_find_from(line, "\r\n"@, 0);
}

/// A host that stands alone goes with the default port, and so does one followed
/// by something that is no port, which then belongs to the host.
pub proof fn law_host_without_port(host: Seq<char>, tail: Seq<char>, default_port: u16)
    requires
        host.len() > 0 ==> host[0] != '[',
        !tail.contains(':'),
        text::parse_port(tail) is None,
    ensures
        !host.contains(':') ==> http::host_port(host, default_port) == Ok::<
            (Seq<char>, u16),
            Seq<char>,
        >((host, default_port)),
        http::host_port(host + ":"@ + tail, default_port) == Ok::<(Seq<char>, u16), Seq<char>>(
            (host + ":"@ + tail, default_port),
        ),
{
    reveal_strlit(":");
    assert(":"@ =~= seq![':']);
    text_laws::law_split_last(host, ':');
    if text::split_last(host, ':') is Some {
        let (a, b) = text::split_last(host, ':')->0;
        assert(host[a.len() as int] == ':');
    }
    text_laws::lemma_split_last(host, ':', tail);
    let value = host + ":"@ + tail;
    assert(value[0] != '[');
}

/// A bracket that is opened and not closed is an error; behind a bracketed host
/// only a colon and a port count, and everything else leaves the default port.
pub proof fn law_brackets(host: Seq<char>, rest: Seq<char>, default_port: u16)
    requires
        !host.contains(']'),
    ensures
        http::host_port("["@ + host, default_port) == Err::<(Seq<char>, u16), Seq<char>>(
            "Invalid IPv6 CONNECT target."@,
        ),
        rest.len() == 0 || rest[0] != ':' || text::parse_port(rest.skip(1)) is None
            ==> http::host_port("["@ + host + "]"@ + rest, default_port) == Ok::<
            (Seq<char>, u16),
            Seq<char>,
        >((host, default_port)),
{
    reveal_strlit("[");
    reveal_strlit("]");
    let open = "["@ + host;
    assert(open.skip(1) =~= host);
    text_laws::law_split_once(host, seq![']']);
    if text::split_once(host, seq![']']) is Some {
        let (a, b) = text::split_once(host, seq![']'])->0;
        assert(host[a.len() as int] == ']');
    }
    let value = "["@ + host + "]"@ + rest;
    assert(value.skip(1) =~= host + seq![']'] + rest);
    text_laws::lemma_split_once_char(host, ']', rest);
}

/// A `CONNECT` request that names no port goes to port 443.
pub proof fn law_connect_goes_to_443(
    method: Seq<char>,
    host: Seq<char>,
    version: Seq<char>,
    rest: Seq<char>,
)
    requires
        text_laws::unspaced(method) && text_laws::spelled(method, "connect"@),
        text_laws::unspaced(host) && host.len() > 0 && host[0] != '[' && !host.contains(':'),
        text_laws::unspaced(version) && version.len() > 0,
    ensures
        http::http_outcome(method + " "@ + host + " "@ + version + "\r\n"@ + rest) == Ok::<
            OutcomeModel,
            Seq<char>,
        >(
            OutcomeModel::Accepted(
                RequestModel {
                    protocol: ProxyProtocol::HttpConnect,
                    host,
                    port: 443,
                    preface: Seq::empty(),
                },
            ),
        ),
{
    reveal_strlit("connect");
    lemma_connect_method(method);
    let none = Seq::<char>::empty();
    law_host_without_port(host, none, 443);
    lemma_connect(method, host, version, rest, host, 443);
}

proof fn lemma_connect_method(method: Seq<char>)
    ensures
        text::lower(method) == text::lower("CONNECT"@) <==> text_laws::spelled(
            method,
            "connect"@,
        ),
{
    reveal_strlit("CONNECT");
    reveal_strlit("connect");
    assert(text::lower("CONNECT"@) =~= "connect"@);
    text_laws::law_spelling(method, "connect"@);
}

/// A method asks for a connection where it is `CONNECT` in any case of letters;
/// with any other, a request in absolute form that names no port goes to port 80,
/// and one that names no path asks for `/`.
pub proof fn law_absolute_form_goes_to_80(
    method: Seq<char>,
    host: Seq<char>,
    path: Seq<char>,
    version: Seq<char>,
    headers: Seq<char>,
)
    requires
        text_laws::unspaced(method) && method.len() > 0,
        !text_laws::spelled(method, "connect"@),
        text_laws::unspaced(host) && host.len() > 0 && host[0] != '[',
        !host.contains(':') && !host.contains('/'),
        text_laws::unspaced(path),
        text_laws::unspaced(version) && version.len() > 0,
    ensures
        http::http_outcome(
            method + " "@ + ("http://"@ + host + "/"@ + path) + " "@ + version + "\r\n"@ + headers,
        ) == Ok::<OutcomeModel, Seq<char>>(
            OutcomeModel::Accepted(
                RequestModel {
                    protocol: ProxyProtocol::HttpForward,
                    host,
                    port: 80,
                    preface: encode_utf8(
                        method + " "@ + ("/"@ + path) + " "@ + version + "\r\n"@,
                    ) + encode_utf8(http::forwarded(text::split(headers, "\r\n"@))),
                },
            ),
        ),
        http::authority_path(host + "/"@ + path) == (host, "/"@ + path),
        http::authority_path(host) == (host, "/"@),
{
    lemma_connect_method(method);
    reveal_strlit("/");
    assert("/"@ =~= seq!['/']);
    law_host_without_port(host, Seq::<char>::empty(), 80);
    lemma_origin(method, host, path, version, headers, host, 80);
    text_laws::lemma_split_once_char(host, '/', path);
    text_laws::law_split_once(host, seq!['/']);
    if text::split_once(host, seq!['/']) is Some {
        let (a, b) = text::split_once(host, seq!['/'])->0;
        assert(host[a.len() as int] == '/');
    }
}

/// A request line is read word by word, and one without a version is one of
/// `HTTP/1.1`.
pub proof fn law_request_line_is_read(method: Seq<char>, target: Seq<char>, version: Seq<char>)
    requires
        text_laws::unspaced(method) && method.len() > 0,
        text_laws::unspaced(target) && target.len() > 0,
        text_laws::unspaced(version) && version.len() > 0,
    ensures
        http::request_words(method + " "@ + target + " "@ + version) == (method, target, version),
        http::request_words(method + " "@ + target) == (method, target, "HTTP/1.1"@),
{
    lemma_request_words(method, target, version);
    reveal_strlit(" ");
    let empty = Seq::<char>::empty();
    let middle = seq![' '] + (target + empty);
    assert(method + " "@ + target =~= method + middle);
    text_laws::lemma_first_word(method, middle);
    text_laws::lemma_first_word(target, empty);
    assert(text::trim_start(empty) =~= empty);
    assert(text::word_len(empty) == 0);
    assert(text::first_word(empty) =~= empty);
}

/// A request head goes on until an empty line is read: bytes in which the row 13,
/// 10, 13, 10 stands are complete, whatever comes before and after it. Up to 8192
/// bytes without such a row more is read, and beyond that the client is turned away
/// as too large.
pub proof fn law_request_head(
    head: HttpHead,
    step: HeadStep,
    before: Seq<u8>,
    after: Seq<u8>,
)
    requires
        call_ensures(HttpHead::step, (&head,), step),
    ensures
        head.request@ == before + seq![13u8, 10, 13, 10] + after ==> step is Complete,
        step is Complete ==> exists|i: int|
            #![trigger head.request@[i]]
            0 <= i < head.request@.len() - 3 && head.request@[i] == 13 && head.request@[i + 1]
                == 10 && head.request@[i + 2] == 13 && head.request@[i + 3] == 10,
        step is Read ==> head.request@.len() <= 8192,
        step is Refuse ==> head.request@.len() > 8192 && step->Refuse_0@ == proxy::http_error(
            "413 Payload Too Large"@,
        ),
{
    let bytes = head.request@;
    let row = seq![13u8, 10, 13, 10];
    if bytes == before + row + after {
        let i = before.len() as int;
        assert(bytes.subrange(i, i + 4) =~= row);
        assert(text::occurs_at(bytes, http::head_end(), i));
    }
    if step is Complete {
        let i = choose|i: int| text::occurs_at(bytes, http::head_end(), i);
        let w = bytes.subrange(i, i + 4);
        assert(w[0] == 13 && w[1] == 10 && w[2] == 13 && w[3] == 10);
        assert(bytes[i] == 13 && bytes[i + 1] == 10 && bytes[i + 2] == 13 && bytes[i + 3] == 10);
    }
}

/// Asked about a header, the answer is whether its name is one of the three.
pub proof fn law_header_is_asked_about(name: &str, yes: bool)
    requires
        call_ensures(is_proxy_only_header, (name,), yes),
    ensures
        yes <==> spells_proxy_header(name@),
{
    law_proxy_header_names(name@);
}

/// A text that names a host and a port gives that host and that port.
pub proof fn law_named_host_and_port(
    value: &str,
    default_port: u16,
    target: Result<(String, u16), String>,
    host: Seq<char>,
    port: u16,
)
    requires
        call_ensures(parse_host_port, (value, default_port), target),
        host.len() > 0 ==> host[0] != '[',
        value@ == host + ":"@ + text::decimal(port as nat),
    ensures
        target matches Ok(found) && found.0@ == host && found.1 == port,
{
    law_host_port(host, port, default_port);
}

/// What is read of a request head comes behind what was read before.
pub proof fn law_head_grows(head: &mut HttpHead, chunk: &[u8])
    requires
        call_ensures(HttpHead::received, (head, chunk), ()),
    ensures
        final(head).request@ == old(head).request@ + chunk@,
{
}

/// A request whose first line holds nothing but whitespace is turned away with a
/// status of 400.
pub proof fn law_blank_request_is_refused(line: Seq<char>, rest: Seq<char>)
    requires
        text_laws::all_space(line),
        !line.contains('\n'),
    ensures
        http::http_outcome(line + "\r\n"@ + rest) == Ok::<OutcomeModel, Seq<char>>(
            OutcomeModel::Refused(proxy::http_error("400 Bad Request"@)),
        ),
{
    reveal_strlit("connect");
    reveal_strlit("http://");
    lemma_request_line(line, rest);
    text_laws::law_first_word(line);
    let after = text::after_first_word(line);
    let w = text::first_word(line);
    assert(text_laws::all_space(after)) by {
        let b = choose|b: Seq<char>|
            #[trigger] text_laws::all_space(b) && line == b + w + after;
        assert forall|i: int| 0 <= i < after.len() implies text::is_whitespace(
            #[trigger] after[i],
        ) by {
            assert(line[b.len() + w.len() + i] == after[i]);
        }
    }
    text_laws::law_first_word(after);
    lemma_connect_method(w);
    assert(!text_laws::spelled(w, "connect"@));
    assert(!text::occurs_at(text::first_word(after), "http://"@, 0));
}

/// A request in absolute form that has no line end is no request.
pub proof fn law_request_without_line_end(
    method: Seq<char>,
    host: Seq<char>,
    path: Seq<char>,
    version: Seq<char>,
)
    requires
        text_laws::unspaced(method) && method.len() > 0,
        !text_laws::spelled(method, "connect"@),
        text_laws::unspaced(host) && host.len() > 0 && host[0] != '[',
        !host.contains(':') && !host.contains('/'),
        text_laws::unspaced(path),
        text_laws::unspaced(version) && version.len() > 0,
    ensures
        http::http_outcome(
            method + " "@ + ("http://"@ + host + "/"@ + path) + " "@ + version,
        ) == Err::<OutcomeModel, Seq<char>>("Invalid HTTP proxy request."@),
{
    reveal_strlit("/");
    reveal_strlit("http://");
    reveal_strlit("\r\n");
    let scheme = "http://"@;
    let target = scheme + host + "/"@ + path;
    assert(text_laws::unspaced("/"@));
    assert(text_laws::unspaced(scheme));
    text_laws::lemma_unspaced_join(scheme, host);
    text_laws::lemma_unspaced_join(scheme + host, "/"@);
    text_laws::lemma_unspaced_join(scheme + host + "/"@, path);
    let line = method + " "@ + target + " "@ + version;
    lemma_line_unbroken(method, target, version);
    lemma_request_words(method, target, version);
    text_laws::law_lines(line, line);
    assert(http::request_line(line) == line);
    lemma_connect_method(method);
    assert(target.subrange(0, scheme.len() as int) =~= scheme);
    assert(target.skip(scheme.len() as int) =~= host + seq!['/'] + path);
    text_laws::lemma_split_once_char(host, '/', path);
    law_host_without_port(host, Seq::<char>::empty(), 80);
    assert(!text::contains(line, "\r\n"@)) by {
        assert forall|j: int| !text::occurs_at(line, "\r\n"@, j) by {
            if text::occurs_at(line, "\r\n"@, j) {
                assert(line.subrange(j, j + 2)[0] == '\r');
                assert(line.contains(line[j]));
            }
        }
    }
    law_headers_follow_the_first_line(line, line);
}

/// A `CONNECT` request whose bracket is not closed is an error.
pub proof fn law_connect_with_open_bracket(
    method: Seq<char>,
    host: Seq<char>,
    version: Seq<char>,
    rest: Seq<char>,
)
    requires
        text_laws::unspaced(method) && text_laws::spelled(method, "connect"@),
        text_laws::unspaced(host) && !host.contains(']'),
        text_laws::unspaced(version) && version.len() > 0,
    ensures
        http::http_outcome(method + " "@ + ("["@ + host) + " "@ + version + "\r\n"@ + rest)
            == Err::<OutcomeModel, Seq<char>>("Invalid IPv6 CONNECT target."@),
{
    reveal_strlit("connect");
    reveal_strlit("[");
    let target = "["@ + host;
    assert(text_laws::unspaced("["@));
    text_laws::lemma_unspaced_join("["@, host);
    lemma_connect_method(method);
    lemma_line_unbroken(method, target, version);
    lemma_request_line(method + " "@ + target + " "@ + version, rest);
    lemma_request_words(method, target, version);
    law_brackets(host, Seq::<char>::empty(), 443);
}

} // verus!
