//! Where a tunnel listens and where it leads.
use vstd::prelude::*;
use crate::config;
use crate::config::{ConfigModel, SshConfig, TunnelType};
use crate::text;
use crate::text::number;
use crate::text_laws;

verus! {

broadcast use vstd::string::group_string_axioms;

/// The address on which local and dynamic tunnels listen.
pub const LOCAL_BIND_HOST: &'static str = "127.0.0.1";

/// The address on which a remote tunnel asks the server to listen first.
pub const REMOTE_FORWARD_BIND_HOST: &'static str = "0.0.0.0";

/// The number of clients that the server holds back until they are taken in.
pub const REMOTE_FORWARD_BACKLOG: u32 = 32;

/// Seconds to wait for the SSH server.
pub const SSH_CONNECT_SECONDS: u64 = 12;

/// Seconds to wait for the target of a remote tunnel.
pub const TARGET_CONNECT_SECONDS: u64 = 8;

/// The address and port on which a profile's tunnel listens on this machine.
pub fn tunnel_bind_addr(config: &SshConfig) -> (address: (&'static str, u16))
    ensures
        address.0@ == LOCAL_BIND_HOST@,
        address.1 == config.local_port,
{
    (LOCAL_BIND_HOST, config.local_port)
}

/// Whether a profile's tunnel listens on this machine, so that its port has to be
/// free: a remote one listens on the server.
pub fn listens_locally(config: &SshConfig) -> (yes: bool)
    ensures
        yes == (config.tunnel_type != TunnelType::Remote),
{
    config.tunnel_type != TunnelType::Remote
}

/// Why a tunnel cannot listen on its port.
pub open spec fn port_in_use(port: u16, reason: Seq<char>) -> Seq<char> {
    "Local port "@ + text::decimal(port as nat) + " is already in use: "@ + reason
}

/// Whether a profile's port can be used, from what came of listening on it: that
/// only matters for a tunnel that listens on this machine.
pub fn ensure_local_port_available(config: &SshConfig, bound: Result<(), String>) -> (result:
    Result<(), String>)
    ensures
        match result {
            Ok(()) => config.tunnel_type == TunnelType::Remote || bound is Ok,
            Err(message) => {
                &&& config.tunnel_type != TunnelType::Remote
                &&& bound is Err
                &&& message@ == port_in_use(config.local_port, bound->Err_0@)
            },
        },
{
    if !listens_locally(config) {
        return Ok(());
    }
    match bound {
        Ok(()) => Ok(()),
        Err(reason) => Err(local_port_error(config, reason.as_str())),
    }
}

/// Why a profile's tunnel cannot listen on its port.
pub fn local_port_error(config: &SshConfig, reason: &str) -> (message: String)
    ensures
        message@ == port_in_use(config.local_port, reason@),
{
    let mut message = "Local port ".to_string();
    let port = number(config.local_port as u64);
    message.append(port.as_str());
    message.append(" is already in use: ");
    message.append(reason);
    message
}

/// The host and port to which a tunnel leads, if these are fixed; or what is
/// missing.
pub open spec fn target_of(config: ConfigModel) -> Result<Option<(Seq<char>, u16)>, Seq<char>> {
    match config.tunnel_type {
        TunnelType::Dynamic => Ok(None),
        TunnelType::Local => if config.remote_host is None {
            Err("Remote host is required for local tunnels."@)
        } else if config.remote_port is None {
            Err("Remote port is required for local tunnels."@)
        } else {
            Ok(Some((config.remote_host->0, config.remote_port->0)))
        },
        TunnelType::Remote => if config.remote_host is None {
            Err("Target host is required for remote tunnels."@)
        } else if config.remote_port is None {
            Err("Target port is required for remote tunnels."@)
        } else {
            Ok(Some((config.remote_host->0, config.remote_port->0)))
        },
    }
}

/// The content of what [`forward_target`] returns.
pub open spec fn target_model(target: Result<Option<(String, u16)>, String>) -> Result<
    Option<(Seq<char>, u16)>,
    Seq<char>,
> {
    match target {
        Ok(Some((host, port))) => Ok(Some((host@, port))),
        Ok(None) => Ok(None),
        Err(message) => Err(message@),
    }
}

/// The host and port to which a profile's tunnel leads; none for a dynamic one,
/// whose clients say where they want to go.
pub fn forward_target(config: &SshConfig) -> (target: Result<Option<(String, u16)>, String>)
    ensures
        target_model(target) == target_of(config@),
{
    match config.tunnel_type {
        TunnelType::Dynamic => Ok(None),
        TunnelType::Local => match (&config.remote_host, config.remote_port) {
            (None, _) => Err("Remote host is required for local tunnels.".to_string()),
            (_, None) => Err("Remote port is required for local tunnels.".to_string()),
            (Some(host), Some(port)) => Ok(Some((host.clone(), port))),
        },
        TunnelType::Remote => match (&config.remote_host, config.remote_port) {
            (None, _) => Err("Target host is required for remote tunnels.".to_string()),
            (_, None) => Err("Target port is required for remote tunnels.".to_string()),
            (Some(host), Some(port)) => Ok(Some((host.clone(), port))),
        },
    }
}

/// Why a remote tunnel cannot listen on its port of the server: neither on all
/// addresses nor on those that the server chooses.
pub open spec fn remote_port_error(
    port: u16,
    public_error: Seq<char>,
    default_error: Seq<char>,
) -> Seq<char> {
    "Could not listen on remote port "@ + text::decimal(port as nat)
        + ". The remote port may already be in use; choose another remote listen port and try again. Public bind "@
        + REMOTE_FORWARD_BIND_HOST@ + " failed: "@ + public_error + "; default bind failed: "@
        + default_error
        + ". If the port is free, check AllowTcpForwarding and GatewayPorts on the SSH server."@
}

/// How far a remote tunnel has come with listening on the server.
#[derive(Debug)]
pub enum RemoteListen {
    /// It tries all addresses of the server.
    Public,
    /// It tries the addresses that the server chooses, after a failure with this
    /// message.
    Fallback(String),
}

/// What follows when the server does not listen.
#[derive(Debug)]
pub enum RemoteListenStep {
    /// Try again in this way.
    Retry(RemoteListen),
    /// Give up, for this reason.
    Fail(String),
}

/// What follows when the server does not listen, for the given reason: first the
/// addresses that it chooses itself, then nothing more.
pub fn remote_listen_failed(config: &SshConfig, tried: RemoteListen, reason: String) -> (step:
    RemoteListenStep)
    ensures
        match (tried, step) {
            (RemoteListen::Public, RemoteListenStep::Retry(RemoteListen::Fallback(error))) => error@
                == reason@,
            (RemoteListen::Fallback(error), RemoteListenStep::Fail(message)) => message@
                == remote_port_error(config.local_port, error@, reason@),
            _ => false,
        },
{
    match tried {
        RemoteListen::Public => RemoteListenStep::Retry(RemoteListen::Fallback(reason)),
        RemoteListen::Fallback(public_error) => {
            let mut message = "Could not listen on remote port ".to_string();
            let port = number(config.local_port as u64);
            message.append(port.as_str());
            message.append(
                ". The remote port may already be in use; choose another remote listen port and try again. Public bind ",
            );
            message.append(REMOTE_FORWARD_BIND_HOST);
            message.append(" failed: ");
            message.append(public_error.as_str());
            message.append("; default bind failed: ");
            message.append(reason.as_str());
            message.append(
                ". If the port is free, check AllowTcpForwarding and GatewayPorts on the SSH server.",
            );
            RemoteListenStep::Fail(message)
        },
    }
}

/// The address on which the server is asked to listen; none leaves it the choice.
pub fn remote_listen_host(tried: &RemoteListen) -> (host: Option<&'static str>)
    ensures
        match (tried, host) {
            (RemoteListen::Public, Some(host)) => host@ == REMOTE_FORWARD_BIND_HOST@,
            (RemoteListen::Fallback(_), None) => true,
            _ => false,
        },
{
    match tried {
        RemoteListen::Public => Some(REMOTE_FORWARD_BIND_HOST),
        RemoteListen::Fallback(_) => None,
    }
}

/// Why the SSH server cannot be reached: its name has no address, or connecting
/// failed for a reason.
pub fn ssh_unreachable(reason: Option<&str>) -> (message: String)
    ensures
        message@ == match reason {
            Some(reason) => "Could not connect to SSH host: "@ + reason@,
            None => "Could not resolve SSH host."@,
        },
{
    match reason {
        Some(reason) => {
            let mut message = "Could not connect to SSH host: ".to_string();
            message.append(reason);
            message
        },
        None => "Could not resolve SSH host.".to_string(),
    }
}

/// Why none of the addresses of a target could be reached: the last failure, or
/// that there was no address.
pub fn target_unreachable(last_failure: Option<String>) -> (message: String)
    ensures
        message@ == match last_failure {
            Some(failure) => failure@,
            None => "target host did not resolve"@,
        },
{
    match last_failure {
        Some(failure) => failure,
        None => "target host did not resolve".to_string(),
    }
}

/// What follows on the way to a target.
#[derive(Debug)]
pub enum TargetStep {
    /// Try the address at this place.
    Try(usize),
    /// Give up, for this reason.
    Fail(String),
}

/// What follows on the way to a target with so many addresses, the first of which
/// have failed: the next address is tried, and where there is none the last
/// failure tells why the target cannot be reached.
pub fn target_step(count: usize, failures: &Vec<String>) -> (step: TargetStep)
    ensures
        match step {
            TargetStep::Try(place) => failures@.len() < count && place == failures@.len(),
            TargetStep::Fail(message) => {
                &&& count <= failures@.len()
                &&& message@ == if failures@.len() > 0 {
                    failures@.last()@
                } else {
                    "target host did not resolve"@
                }
            },
        },
{
    let tried: usize = failures.len();
    if tried < count {
        return TargetStep::Try(tried);
    }
    let last_failure = if tried > 0 {
        Some(failures[tried - 1].clone())
    } else {
        None
    };
    TargetStep::Fail(target_unreachable(last_failure))
}

/// A valid profile lacks nothing that its tunnel needs to know where it leads.
pub proof fn law_valid_profile_has_target(config: ConfigModel)
    requires
        config::config_error(config) is None,
    ensures
        target_of(config) is Ok,
        config.tunnel_type != TunnelType::Dynamic ==> target_of(config) == Ok::<
            Option<(Seq<char>, u16)>,
            Seq<char>,
        >(Some((config.remote_host->0, config.remote_port->0))),
{
}

/// A tunnel listens on its own port of this machine alone.
pub proof fn law_tunnel_listens_on_this_machine(config: SshConfig, address: (&'static str, u16))
    requires
        call_ensures(tunnel_bind_addr, (&config,), address),
    ensures
        address.0@ == "127.0.0.1"@,
        address.1 == config.local_port,
{
}

/// A local or remote tunnel leads to its remote host and remote port, where it has
/// both; the missing one is named, the host before the port. A dynamic tunnel has
/// no target, whatever else it holds.
pub proof fn law_targets(config: ConfigModel)
    ensures
        ({
            let target = target_of(config);
            let local = config.tunnel_type == TunnelType::Local;
            let remote = config.tunnel_type == TunnelType::Remote;
            &&& config.tunnel_type == TunnelType::Dynamic ==> target == Ok::<
                Option<(Seq<char>, u16)>,
                Seq<char>,
            >(None)
            &&& !(config.tunnel_type == TunnelType::Dynamic) && config.remote_host is Some
                && config.remote_port is Some ==> target == Ok::<
                Option<(Seq<char>, u16)>,
                Seq<char>,
            >(Some((config.remote_host->0, config.remote_port->0)))
            &&& config.remote_host is None && local ==> target == Err::<
                Option<(Seq<char>, u16)>,
                Seq<char>,
            >("Remote host is required for local tunnels."@)
            &&& config.remote_host is None && remote ==> target == Err::<
                Option<(Seq<char>, u16)>,
                Seq<char>,
            >("Target host is required for remote tunnels."@)
            &&& config.remote_host is Some && config.remote_port is None && local ==> target
                == Err::<Option<(Seq<char>, u16)>, Seq<char>>(
                "Remote port is required for local tunnels."@,
            )
            &&& config.remote_host is Some && config.remote_port is None && remote ==> target
                == Err::<Option<(Seq<char>, u16)>, Seq<char>>(
                "Target port is required for remote tunnels."@,
            )
        }),
{
}

/// The message about a port that is in use names the port of the profile and gives
/// the reason: behind "Local port " and up to the next space stands the port, and
/// the message ends with the reason.
pub proof fn law_port_in_use_is_named(port: u16, reason: Seq<char>)
    ensures
        ({
            let message = port_in_use(port, reason);
            let tail = " is already in use: "@ + reason;
            &&& text::occurs_at(message, "Local port "@, 0)
            &&& text::first_word(message.skip(11)) == text::decimal(port as nat)
            &&& text::parse_port(text::first_word(message.skip(11))) == Some(port)
            &&& text::after_first_word(message.skip(11)) == tail
        }),
{
    reveal_strlit("Local port ");
    reveal_strlit(" is already in use: ");
    let message = port_in_use(port, reason);
    let digits = text::decimal(port as nat);
    let tail = " is already in use: "@ + reason;
    text_laws::lemma_decimal(port as nat);
    text_laws::lemma_unspaced_decimal(port as nat);
    text_laws::lemma_first_word(digits, tail);
    text_laws::law_port_round_trip(port);
    assert(message.skip(11) =~= digits + tail);
    assert(message.subrange(0, 11) =~= "Local port "@);
}

/// The message about a port of the server names the port and gives both reasons,
/// that of all addresses before that of the server's own choice.
pub proof fn law_remote_port_is_named(
    port: u16,
    public_error: Seq<char>,
    default_error: Seq<char>,
)
    ensures
        remote_port_error(port, public_error, default_error)
            == "Could not listen on remote port "@ + text::decimal(port as nat)
            + ". The remote port may already be in use; choose another remote listen port and try again. Public bind 0.0.0.0 failed: "@
            + public_error + "; default bind failed: "@ + default_error
            + ". If the port is free, check AllowTcpForwarding and GatewayPorts on the SSH server."@,
{
    reveal_strlit(
        ". The remote port may already be in use; choose another remote listen port and try again. Public bind ",
    );
    reveal_strlit("0.0.0.0");
    reveal_strlit(" failed: ");
    reveal_strlit(
        ". The remote port may already be in use; choose another remote listen port and try again. Public bind 0.0.0.0 failed: ",
    );
    let a =
        ". The remote port may already be in use; choose another remote listen port and try again. Public bind "@;
    let whole =
        ". The remote port may already be in use; choose another remote listen port and try again. Public bind 0.0.0.0 failed: "@;
    assert(a + "0.0.0.0"@ + " failed: "@ =~= whole);
    let start = "Could not listen on remote port "@ + text::decimal(port as nat);
    assert(start + a + "0.0.0.0"@ + " failed: "@ =~= start + whole);
}

/// The server is asked to listen on all its addresses first, then where it likes,
/// and then no more.
pub proof fn law_remote_listening_is_tried_twice(
    config: SshConfig,
    tried: RemoteListen,
    reason: String,
    step: RemoteListenStep,
    host: Option<&'static str>,
)
    requires
        call_ensures(remote_listen_failed, (&config, tried, reason), step),
        call_ensures(remote_listen_host, (&tried,), host),
    ensures
        tried is Public ==> host is Some && host->0@ == "0.0.0.0"@,
        tried is Fallback ==> host is None,
        match (tried, step) {
            (RemoteListen::Public, RemoteListenStep::Retry(again)) => again is Fallback
                && again->Fallback_0@ == reason@,
            (RemoteListen::Fallback(error), RemoteListenStep::Fail(message)) => message@
                == remote_port_error(config.local_port, error@, reason@),
            _ => false,
        },
{
}

/// Every address of a target is tried once, in order, before it is given up.
pub proof fn law_addresses_are_tried_in_order(
    count: usize,
    failures: Vec<String>,
    step: TargetStep,
)
    requires
        call_ensures(target_step, (count, &failures), step),
    ensures
        failures@.len() < count ==> step == TargetStep::Try(failures@.len() as usize),
        failures@.len() >= count && failures@.len() > 0 ==> step is Fail && step->Fail_0@
            == failures@[failures@.len() - 1]@,
        failures@.len() >= count && failures@.len() == 0 ==> step is Fail && step->Fail_0@
            == "target host did not resolve"@,
{
}

/// Only a tunnel that listens on this machine needs its port to be free.
pub proof fn law_port_matters_on_this_machine(
    config: SshConfig,
    bound: Result<(), String>,
    result: Result<(), String>,
)
    requires
        call_ensures(ensure_local_port_available, (&config, bound), result),
    ensures
        config.tunnel_type == TunnelType::Remote ==> result is Ok,
        bound is Ok ==> result is Ok,
        config.tunnel_type != TunnelType::Remote && bound is Err ==> result is Err
            && text::contains(result->Err_0@, text::decimal(config.local_port as nat)),
{
    if config.tunnel_type != TunnelType::Remote && bound is Err {
        let message = result->Err_0@;
        let digits = text::decimal(config.local_port as nat);
        reveal_strlit("Local port ");
        assert(message.subrange(11, 11 + digits.len() as int) =~= digits);
        assert(text::occurs_at(message, digits, 11));
    }
}

/// The way to a target is found where the profile has one: a local or remote tunnel
/// leads to the profile's own remote host and port.
pub proof fn law_profile_leads_to_its_target(
    config: SshConfig,
    target: Result<Option<(String, u16)>, String>,
)
    requires
        call_ensures(forward_target, (&config,), target),
    ensures
        config.tunnel_type == TunnelType::Dynamic ==> target is Ok && target->Ok_0 is None,
        config.tunnel_type != TunnelType::Dynamic && config.remote_host is Some
            && config.remote_port is Some ==> target is Ok && target->Ok_0 is Some && (
        target->Ok_0->0).0@ == config.remote_host->0@ && (target->Ok_0->0).1
            == config.remote_port->0,
        config.tunnel_type != TunnelType::Dynamic && (config.remote_host is None
            || config.remote_port is None) ==> target is Err,
{
    law_targets(config@);
}

/// A server that cannot be reached is told apart from one whose name has no address.
pub proof fn law_unreachable_server(reason: &str, reached: String, resolved: String)
    requires
        call_ensures(ssh_unreachable, (Some(reason),), reached),
        call_ensures(ssh_unreachable, (None::<&str>,), resolved),
    ensures
        reached@ == "Could not connect to SSH host: "@ + reason@,
        resolved@ == "Could not resolve SSH host."@,
{
}

} // verus!
