//! The SOCKS5 handshake, byte for byte.
use vstd::prelude::*;
use vstd::slice::slice_to_vec;
use vstd::utf8::*;
use crate::proxy;
use crate::proxy::{
    socks5_failure_reply, ProxyProtocol, ProxyRequest, RequestModel,
};
use crate::text;
use crate::text::{number, utf8_text};
use crate::text_laws;

verus! {

broadcast use vstd::string::group_string_axioms;

/// How far the handshake has come: what is read next.
#[derive(Debug)]
pub enum Socks5State {
    /// The number of authentication methods.
    MethodCount,
    /// The methods that the client offers.
    Methods(u8),
    /// Version, command, a reserved byte and the kind of address.
    Command,
    /// The four bytes of an IPv4 address.
    Ipv4,
    /// The length of a domain name.
    DomainLength,
    /// A domain name.
    Domain(u8),
    /// The sixteen bytes of an IPv6 address.
    Ipv6,
    /// The port that goes with this host.
    Port(String),
}

/// What follows from bytes that were read.
#[derive(Debug)]
pub enum Socks5Step {
    /// Read on in this state.
    Read(Socks5State),
    /// Send the bytes, which must succeed, then read on in this state.
    Reply(Vec<u8>, Socks5State),
    /// Write these sixteen bytes as an IPv6 address, then read its port.
    WriteIpv6(Vec<u8>),
    /// The client is to be connected.
    Accepted(ProxyRequest),
    /// Send the bytes and let the client go.
    Refused(Vec<u8>),
    /// The handshake is broken, for this reason.
    Failed(String),
}

/// The content of a [`Socks5State`].
pub enum StateModel {
    MethodCount,
    Methods(u8),
    Command,
    Ipv4,
    DomainLength,
    Domain(u8),
    Ipv6,
    Port(Seq<char>),
}

/// The content of a [`Socks5Step`].
pub enum StepModel {
    Read(StateModel),
    Reply(Seq<u8>, StateModel),
    WriteIpv6(Seq<u8>),
    Accepted(RequestModel),
    Refused(Seq<u8>),
    Failed(Seq<char>),
}

impl View for Socks5State {
    type V = StateModel;

    open spec fn view(&self) -> StateModel {
        match self {
            Socks5State::MethodCount => StateModel::MethodCount,
            Socks5State::Methods(count) => StateModel::Methods(*count),
            Socks5State::Command => StateModel::Command,
            Socks5State::Ipv4 => StateModel::Ipv4,
            Socks5State::DomainLength => StateModel::DomainLength,
            Socks5State::Domain(len) => StateModel::Domain(*len),
            Socks5State::Ipv6 => StateModel::Ipv6,
            Socks5State::Port(host) => StateModel::Port(host@),
        }
    }
}

impl View for Socks5Step {
    type V = StepModel;

    open spec fn view(&self) -> StepModel {
        match self {
            Socks5Step::Read(state) => StepModel::Read(state@),
            Socks5Step::Reply(bytes, state) => StepModel::Reply(bytes@, state@),
            Socks5Step::WriteIpv6(octets) => StepModel::WriteIpv6(octets@),
            Socks5Step::Accepted(request) => StepModel::Accepted(request@),
            Socks5Step::Refused(bytes) => StepModel::Refused(bytes@),
            Socks5Step::Failed(message) => StepModel::Failed(message@),
        }
    }
}

/// The number of bytes that a state reads.
pub open spec fn wanted(state: StateModel) -> nat {
    match state {
        StateModel::MethodCount => 1,
        StateModel::Methods(count) => count as nat,
        StateModel::Command => 4,
        StateModel::Ipv4 => 4,
        StateModel::DomainLength => 1,
        StateModel::Domain(len) => len as nat,
        StateModel::Ipv6 => 16,
        StateModel::Port(_) => 2,
    }
}

/// An IPv4 address as text.
pub open spec fn ipv4_text(octets: Seq<u8>) -> Seq<char> {
    text::decimal(octets[0] as nat) + "."@ + text::decimal(octets[1] as nat) + "."@
        + text::decimal(octets[2] as nat) + "."@ + text::decimal(octets[3] as nat)
}

/// The request for a host and port.
pub open spec fn socks5_request(host: Seq<char>, port: u16) -> RequestModel {
    RequestModel { protocol: ProxyProtocol::Socks5, host, port, preface: Seq::empty() }
}

/// What follows in a state from the bytes that it reads.
///
/// A client must offer method 0 (no authentication) and may only ask for a
/// connection (command 1), to an IPv4 address, a domain name or an IPv6 address.
pub open spec fn next(state: StateModel, bytes: Seq<u8>) -> StepModel {
    match state {
        StateModel::MethodCount => StepModel::Read(StateModel::Methods(bytes[0])),
        StateModel::Methods(_) => if bytes.contains(0u8) {
            StepModel::Reply(seq![0x05u8, 0x00], StateModel::Command)
        } else {
            StepModel::Refused(seq![0x05u8, 0xff])
        },
        StateModel::Command => if bytes[0] != 0x05 || bytes[1] != 0x01 {
            StepModel::Refused(proxy::socks5_failure())
        } else if bytes[3] == 0x01 {
            StepModel::Read(StateModel::Ipv4)
        } else if bytes[3] == 0x03 {
            StepModel::Read(StateModel::DomainLength)
        } else if bytes[3] == 0x04 {
            StepModel::Read(StateModel::Ipv6)
        } else {
            StepModel::Refused(proxy::socks5_failure())
        },
        StateModel::Ipv4 => StepModel::Read(StateModel::Port(ipv4_text(bytes))),
        StateModel::DomainLength => StepModel::Read(StateModel::Domain(bytes[0])),
        StateModel::Domain(_) => if valid_utf8(bytes) {
            StepModel::Read(StateModel::Port(decode_utf8(bytes)))
        } else {
            StepModel::Failed("Invalid SOCKS5 domain."@)
        },
        StateModel::Ipv6 => StepModel::WriteIpv6(bytes),
        StateModel::Port(host) => StepModel::Accepted(
            socks5_request(host, (bytes[0] * 256 + bytes[1]) as u16),
        ),
    }
}

/// The number of bytes to read in a state.
pub fn socks5_wanted(state: &Socks5State) -> (count: usize)
    ensures
        count == wanted(state@),
{
    match state {
        Socks5State::MethodCount => 1,
        Socks5State::Methods(count) => *count as usize,
        Socks5State::Command => 4,
        Socks5State::Ipv4 => 4,
        Socks5State::DomainLength => 1,
        Socks5State::Domain(len) => *len as usize,
        Socks5State::Ipv6 => 16,
        Socks5State::Port(_) => 2,
    }
}

/// What follows in a state from the bytes that it reads.
pub fn socks5_step(state: Socks5State, bytes: &[u8]) -> (step: Socks5Step)
    requires
        bytes@.len() == wanted(state@),
    ensures
        step@ == next(state@, bytes@),
{
    match state {
        Socks5State::MethodCount => Socks5Step::Read(Socks5State::Methods(bytes[0])),
        Socks5State::Methods(_) => if offers_no_authentication(bytes) {
            Socks5Step::Reply(vec![0x05u8, 0x00], Socks5State::Command)
        } else {
            Socks5Step::Refused(vec![0x05u8, 0xff])
        },
        Socks5State::Command => if bytes[0] != 0x05 || bytes[1] != 0x01 {
            Socks5Step::Refused(socks5_failure_reply())
        } else if bytes[3] == 0x01 {
            Socks5Step::Read(Socks5State::Ipv4)
        } else if bytes[3] == 0x03 {
            Socks5Step::Read(Socks5State::DomainLength)
        } else if bytes[3] == 0x04 {
            Socks5Step::Read(Socks5State::Ipv6)
        } else {
            Socks5Step::Refused(socks5_failure_reply())
        },
        Socks5State::Ipv4 => Socks5Step::Read(Socks5State::Port(ipv4_host(bytes))),
        Socks5State::DomainLength => Socks5Step::Read(Socks5State::Domain(bytes[0])),
        Socks5State::Domain(_) => match utf8_text(slice_to_vec(bytes)) {
            Some(host) => Socks5Step::Read(Socks5State::Port(host)),
            None => Socks5Step::Failed("Invalid SOCKS5 domain.".to_string()),
        },
        Socks5State::Ipv6 => Socks5Step::WriteIpv6(slice_to_vec(bytes)),
        Socks5State::Port(host) => {
            let port: u16 = bytes[0] as u16 * 256 + bytes[1] as u16;
            Socks5Step::Accepted(
                ProxyRequest { protocol: ProxyProtocol::Socks5, host, port, preface: Vec::new() },
            )
        },
    }
}

fn offers_no_authentication(methods: &[u8]) -> (yes: bool)
    ensures
        yes == methods@.contains(0u8),
{
    let mut i: usize = 0;
    while i < methods.len()
        invariant
            i <= methods@.len(),
            forall|j: int| 0 <= j < i ==> methods@[j] != 0,
        decreases methods.len() - i,
    {
        if methods[i] == 0 {
            return true;
        }
        i = i + 1;
    }
    false
}

fn ipv4_host(octets: &[u8]) -> (host: String)
    requires
        octets@.len() == 4,
    ensures
        host@ == ipv4_text(octets@),
{
    let mut host = number(octets[0] as u64);
    let second = number(octets[1] as u64);
    let third = number(octets[2] as u64);
    let fourth = number(octets[3] as u64);
    host.append(".");
    host.append(second.as_str());
    host.append(".");
    host.append(third.as_str());
    host.append(".");
    host.append(fourth.as_str());
    host
}

/// How many states at most lie ahead.
pub open spec fn rank(state: StateModel) -> nat {
    match state {
        StateModel::MethodCount => 5,
        StateModel::Methods(_) => 4,
        StateModel::Command => 3,
        StateModel::DomainLength => 2,
        StateModel::Ipv4 => 1,
        StateModel::Domain(_) => 1,
        StateModel::Ipv6 => 1,
        StateModel::Port(_) => 0,
    }
}

/// The whole handshake from a state on: the bytes that are sent to the client,
/// and how it ends; it has no end as long as bytes are missing.
pub open spec fn run(state: StateModel, input: Seq<u8>) -> (Seq<u8>, Option<StepModel>)
    decreases rank(state),
{
    let count = wanted(state) as int;
    if input.len() < count {
        (Seq::empty(), None)
    } else {
        match next(state, input.take(count)) {
            StepModel::Read(state) => run(state, input.skip(count)),
            StepModel::Reply(bytes, state) => {
                let (sent, end) = run(state, input.skip(count));
                (bytes + sent, end)
            },
            StepModel::Refused(bytes) => (bytes, Some(StepModel::Refused(bytes))),
            end => (Seq::empty(), Some(end)),
        }
    }
}

/// A client's offer of authentication methods, without the version byte.
pub open spec fn greeting(methods: Seq<u8>) -> Seq<u8> {
    seq![methods.len() as u8] + methods
}

/// A port in network byte order.
pub open spec fn port_bytes(port: u16) -> Seq<u8> {
    seq![(port / 256) as u8, (port % 256) as u8]
}

/// A client's message that asks for a connection to a domain name.
pub open spec fn connect_domain(reserved: u8, host: Seq<char>, port: u16) -> Seq<u8> {
    seq![0x05u8, 0x01, reserved, 0x03] + seq![encode_utf8(host).len() as u8] + encode_utf8(host)
        + port_bytes(port)
}

/// A client's message that asks for a connection to an IPv4 address.
pub open spec fn connect_ipv4(reserved: u8, octets: Seq<u8>, port: u16) -> Seq<u8> {
    seq![0x05u8, 0x01, reserved, 0x01] + octets + port_bytes(port)
}

/// A client's message that asks for a connection to an IPv6 address, as far as
/// the address goes.
pub open spec fn connect_ipv6(reserved: u8, octets: Seq<u8>) -> Seq<u8> {
    seq![0x05u8, 0x01, reserved, 0x04] + octets
}

proof fn lemma_run_step(state: StateModel, head: Seq<u8>, tail: Seq<u8>)
    requires
        head.len() == wanted(state),
    ensures
        run(state, head + tail) == match next(state, head) {
            StepModel::Read(state) => run(state, tail),
            StepModel::Reply(bytes, state) => (bytes + run(state, tail).0, run(state, tail).1),
            StepModel::Refused(bytes) => (bytes, Some(StepModel::Refused(bytes))),
            end => (Seq::<u8>::empty(), Some(end)),
        },
{
    assert((head + tail).take(head.len() as int) == head);
    assert((head + tail).skip(head.len() as int) == tail);
}

proof fn lemma_run_greeting(methods: Seq<u8>, tail: Seq<u8>)
    requires
        methods.len() <= 255,
    ensures
        run(StateModel::MethodCount, greeting(methods) + tail) == if methods.contains(0u8) {
            (seq![0x05u8, 0x00] + run(StateModel::Command, tail).0, run(StateModel::Command, tail).1)
        } else {
            (seq![0x05u8, 0xff], Some(StepModel::Refused(seq![0x05u8, 0xff])))
        },
{
    let count = seq![methods.len() as u8];
    lemma_run_step(StateModel::MethodCount, count, methods + tail);
    assert(greeting(methods) + tail == count + (methods + tail));
    lemma_run_step(StateModel::Methods(methods.len() as u8), methods, tail);
}

proof fn lemma_run_port(host: Seq<char>, port: u16, tail: Seq<u8>)
    ensures
        run(StateModel::Port(host), port_bytes(port) + tail) == (
            Seq::<u8>::empty(),
            Some(StepModel::Accepted(socks5_request(host, port))),
        ),
{
    lemma_run_step(StateModel::Port(host), port_bytes(port), tail);
    assert((port / 256) * 256 + port % 256 == port);
}

/// A client that offers to go without authentication and asks for a domain name
/// is told that this is fine, and gets the very host and port it wrote, whatever
/// it sends afterwards.
pub proof fn law_socks5_domain(
    methods: Seq<u8>,
    reserved: u8,
    host: Seq<char>,
    port: u16,
    tail: Seq<u8>,
)
    requires
        methods.len() <= 255,
        methods.contains(0u8),
        encode_utf8(host).len() <= 255,
    ensures
        run(
            StateModel::MethodCount,
            greeting(methods) + (connect_domain(reserved, host, port) + tail),
        ) == (seq![0x05u8, 0x00], Some(StepModel::Accepted(socks5_request(host, port)))),
{
    let name = encode_utf8(host);
    let command = seq![0x05u8, 0x01, reserved, 0x03];
    let len = seq![name.len() as u8];
    let rest = port_bytes(port) + tail;
    lemma_run_greeting(methods, connect_domain(reserved, host, port) + tail);
    assert(connect_domain(reserved, host, port) + tail == command + (len + (name + rest)));
    lemma_run_step(StateModel::Command, command, len + (name + rest));
    lemma_run_step(StateModel::DomainLength, len, name + rest);
    lemma_run_step(StateModel::Domain(name.len() as u8), name, rest);
    encode_utf8_valid_utf8(host);
    encode_utf8_decode_utf8(host);
    lemma_run_port(host, port, tail);
    assert(seq![0x05u8, 0x00] + Seq::<u8>::empty() == seq![0x05u8, 0x00]);
}

/// A client that offers to go without authentication and asks for an IPv4
/// address gets the address it wrote, in dotted form, and its port.
pub proof fn law_socks5_ipv4(
    methods: Seq<u8>,
    reserved: u8,
    octets: Seq<u8>,
    port: u16,
    tail: Seq<u8>,
)
    requires
        methods.len() <= 255,
        methods.contains(0u8),
        octets.len() == 4,
    ensures
        run(
            StateModel::MethodCount,
            greeting(methods) + (connect_ipv4(reserved, octets, port) + tail),
        ) == (
            seq![0x05u8, 0x00],
            Some(StepModel::Accepted(socks5_request(ipv4_text(octets), port))),
        ),
{
    let command = seq![0x05u8, 0x01, reserved, 0x01];
    let rest = port_bytes(port) + tail;
    lemma_run_greeting(methods, connect_ipv4(reserved, octets, port) + tail);
    assert(connect_ipv4(reserved, octets, port) + tail == command + (octets + rest));
    lemma_run_step(StateModel::Command, command, octets + rest);
    lemma_run_step(StateModel::Ipv4, octets, rest);
    lemma_run_port(ipv4_text(octets), port, tail);
    assert(seq![0x05u8, 0x00] + Seq::<u8>::empty() == seq![0x05u8, 0x00]);
}

/// A client that offers to go without authentication and asks for an IPv6
/// address has that address written out, and then gets it with its port.
pub proof fn law_socks5_ipv6(
    methods: Seq<u8>,
    reserved: u8,
    octets: Seq<u8>,
    host: Seq<char>,
    port: u16,
    tail: Seq<u8>,
)
    requires
        methods.len() <= 255,
        methods.contains(0u8),
        octets.len() == 16,
    ensures
        run(StateModel::MethodCount, greeting(methods) + (connect_ipv6(reserved, octets) + tail))
            == (seq![0x05u8, 0x00], Some(StepModel::WriteIpv6(octets))),
        run(StateModel::Port(host), port_bytes(port) + tail) == (
            Seq::<u8>::empty(),
            Some(StepModel::Accepted(socks5_request(host, port))),
        ),
{
    let command = seq![0x05u8, 0x01, reserved, 0x04];
    lemma_run_greeting(methods, connect_ipv6(reserved, octets) + tail);
    assert(connect_ipv6(reserved, octets) + tail == command + (octets + tail));
    lemma_run_step(StateModel::Command, command, octets + tail);
    lemma_run_step(StateModel::Ipv6, octets, tail);
    lemma_run_port(host, port, tail);
    assert(seq![0x05u8, 0x00] + Seq::<u8>::empty() == seq![0x05u8, 0x00]);
}

/// A client that insists on authentication is refused with `05 ff`, and nothing
/// else is sent, whatever follows its offer.
pub proof fn law_socks5_authentication_refused(methods: Seq<u8>, tail: Seq<u8>)
    requires
        methods.len() <= 255,
        !methods.contains(0u8),
    ensures
        run(StateModel::MethodCount, greeting(methods) + tail) == (
            seq![0x05u8, 0xff],
            Some(StepModel::Refused(seq![0x05u8, 0xff])),
        ),
{
    lemma_run_greeting(methods, tail);
}

/// After an acceptable offer, any message of another version, with another
/// command than a connection, or with an unknown kind of address is refused with
/// the failure reply, and nothing of its address is read.
pub proof fn law_socks5_command_refused(methods: Seq<u8>, command: Seq<u8>, tail: Seq<u8>)
    requires
        methods.len() <= 255,
        methods.contains(0u8),
        command.len() == 4,
        command[0] != 0x05 || command[1] != 0x01 || (command[3] != 0x01 && command[3] != 0x03
            && command[3] != 0x04),
    ensures
        run(StateModel::MethodCount, greeting(methods) + (command + tail)) == (
            seq![0x05u8, 0x00] + proxy::socks5_failure(),
            Some(StepModel::Refused(proxy::socks5_failure())),
        ),
{
    lemma_run_greeting(methods, command + tail);
    lemma_run_step(StateModel::Command, command, tail);
}

/// Once a handshake has ended, what the client sends afterwards changes nothing.
pub proof fn law_socks5_end_is_final(state: StateModel, input: Seq<u8>, tail: Seq<u8>)
    requires
        run(state, input).1 is Some,
    ensures
        run(state, input + tail) == run(state, input),
    decreases rank(state),
{
    let count = wanted(state) as int;
    let head = input.take(count);
    assert(input == head + input.skip(count));
    assert(input + tail == head + (input.skip(count) + tail));
    lemma_run_step(state, head, input.skip(count) + tail);
    match next(state, head) {
        StepModel::Read(state) => law_socks5_end_is_final(state, input.skip(count), tail),
        StepModel::Reply(_, state) => law_socks5_end_is_final(state, input.skip(count), tail),
        _ => {},
    }
}

/// The host of an IPv4 address is read back as that address: between its dots stand
/// exactly four numbers, in base ten without leading zeros, and each is the byte in
/// that place.
pub proof fn law_ipv4_host_is_read_back(octets: Seq<u8>)
    requires
        octets.len() == 4,
    ensures
        ({
            let pieces = text::split(ipv4_text(octets), seq!['.']);
            &&& pieces.len() == 4
            &&& forall|i: int|
                0 <= i < 4 ==> {
                    &&& (#[trigger] pieces[i]).len() > 0
                    &&& text::all_digits(pieces[i])
                    &&& text::digits_value(pieces[i]) == octets[i]
                    &&& pieces[i].len() > 1 ==> pieces[i][0] != '0'
                }
        }),
{
    reveal_strlit(".");
    assert("."@ =~= seq!['.']);
    let dot = seq!['.'];
    let a = text::decimal(octets[0] as nat);
    let b = text::decimal(octets[1] as nat);
    let c = text::decimal(octets[2] as nat);
    let d = text::decimal(octets[3] as nat);
    text_laws::lemma_decimal_has_no(octets[0] as nat, '.');
    text_laws::lemma_decimal_has_no(octets[1] as nat, '.');
    text_laws::lemma_decimal_has_no(octets[2] as nat, '.');
    text_laws::lemma_decimal_has_no(octets[3] as nat, '.');
    text_laws::lemma_split_char(a, '.', b + dot + (c + dot + d));
    text_laws::lemma_split_char(b, '.', c + dot + d);
    text_laws::lemma_split_char(c, '.', d);
    text_laws::lemma_split_char(d, '.', d);
    assert(ipv4_text(octets) =~= a + dot + (b + dot + (c + dot + d)));
    let pieces = text::split(ipv4_text(octets), dot);
    assert(pieces =~= seq![a, b, c, d]);
    assert forall|i: int| 0 <= i < 4 implies {
        &&& (#[trigger] pieces[i]).len() > 0
        &&& text::all_digits(pieces[i])
        &&& text::digits_value(pieces[i]) == octets[i]
        &&& pieces[i].len() > 1 ==> pieces[i][0] != '0'
    } by {
        assert(pieces[i] == text::decimal(octets[i] as nat));
        text_laws::lemma_decimal(octets[i] as nat);
        text_laws::law_decimal_has_no_leading_zero(octets[i] as nat);
    }
}

/// Two addresses that differ in any byte never give the same host.
pub proof fn law_ipv4_hosts_differ(octets: Seq<u8>, others: Seq<u8>)
    requires
        octets.len() == 4,
        others.len() == 4,
        octets != others,
    ensures
        ipv4_text(octets) != ipv4_text(others),
{
    law_ipv4_host_is_read_back(octets);
    law_ipv4_host_is_read_back(others);
    if ipv4_text(octets) == ipv4_text(others) {
        let pieces = text::split(ipv4_text(octets), seq!['.']);
        assert forall|i: int| 0 <= i < 4 implies octets[i] == others[i] by {
            assert(text::digits_value(pieces[i]) == octets[i]);
            assert(text::digits_value(pieces[i]) == others[i]);
        }
        assert(octets =~= others);
    }
}

/// Each kind of address is followed by a port of two bytes, the greater first, and
/// the request carries that very port and the host it was read with, and nothing
/// for the host to get first.
pub proof fn law_port_is_read_from_two_bytes(host: Seq<char>, bytes: Seq<u8>)
    requires
        bytes.len() == 2,
    ensures
        wanted(StateModel::Port(host)) == 2,
        next(StateModel::Port(host), bytes) matches StepModel::Accepted(request) && {
            &&& request.host == host
            &&& request.port / 256 == bytes[0]
            &&& request.port % 256 == bytes[1]
            &&& request.protocol == ProxyProtocol::Socks5
            &&& request.preface.len() == 0
        },
{
}

/// A client names the length of what it sends next, and exactly that much is read:
/// as many methods as it announces, as many bytes of a domain name, four for an
/// IPv4 address and sixteen for an IPv6 address.
pub proof fn law_announced_length_is_read(bytes: Seq<u8>)
    requires
        bytes.len() == 1,
    ensures
        next(StateModel::MethodCount, bytes) matches StepModel::Read(state) && state is Methods
            && wanted(state) == bytes[0],
        next(StateModel::DomainLength, bytes) matches StepModel::Read(state) && state is Domain
            && wanted(state) == bytes[0],
        wanted(StateModel::MethodCount) == 1,
        wanted(StateModel::DomainLength) == 1,
        wanted(StateModel::Command) == 4,
        wanted(StateModel::Ipv4) == 4,
        wanted(StateModel::Ipv6) == 16,
{
}

/// A domain name is taken as it is sent; one that is not text breaks the
/// handshake, and no other input does.
pub proof fn law_only_a_bad_domain_breaks_the_handshake(state: StateModel, bytes: Seq<u8>)
    requires
        bytes.len() == wanted(state),
    ensures
        next(state, bytes) is Failed <==> state is Domain && !valid_utf8(bytes),
        state is Domain && valid_utf8(bytes) ==> next(state, bytes) == StepModel::Read(
            StateModel::Port(decode_utf8(bytes)),
        ),
        next(state, bytes) matches StepModel::Failed(message) ==> message
            == "Invalid SOCKS5 domain."@,
{
}

} // verus!
