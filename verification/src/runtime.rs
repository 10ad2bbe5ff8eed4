//! The tunnels that are up, those that are wanted, and those that wait for a
//! login.
//!
//! The state is generic in the handle by which a running tunnel is held. Whether
//! the worker behind a handle still runs is known to its owner alone, so the
//! functions take that as an argument; handles that leave the state are given
//! back, for their owner to end.
use vstd::prelude::*;
use crate::config;
use crate::config::{validate_config, AuthProfile, ConfigModel, SshConfig, TunnelType};
use crate::ids;
use crate::ids::{IdMap, IdSet};
use crate::runtime_laws;
use crate::service;
use crate::service::{should_mark_needs_auth, ServiceFailureKind, TunnelStatus};
use crate::text::same_str;
use crate::tunnel;
use crate::tunnel::{ensure_local_port_available, listens_locally};

verus! {

/// A count of forwarded bytes, and when it was taken.
#[derive(Debug, Clone, Copy)]
pub struct TrafficSnapshot {
    /// Nanoseconds on a clock that never goes back.
    pub captured_at: u128,
    pub bytes_total: u64,
}

/// The tunnels of the service.
pub struct RuntimeState<H> {
    tunnels: IdMap<H>,
    traffic: Option<TrafficSnapshot>,
    desired: IdSet,
    needs_auth: IdSet,
}

/// The content of a [`RuntimeState`].
#[verifier::ext_equal]
pub struct RuntimeModel<H> {
    /// The handle of each tunnel that was started.
    pub tunnels: Map<Seq<char>, H>,
    /// The last look at the traffic.
    pub traffic: Option<TrafficSnapshot>,
    /// The profiles whose tunnel is wanted.
    pub desired: Set<Seq<char>>,
    /// The profiles whose user has to log in again.
    pub needs_auth: Set<Seq<char>>,
}

impl<H> View for RuntimeState<H> {
    type V = RuntimeModel<H>;

    closed spec fn view(&self) -> RuntimeModel<H> {
        RuntimeModel {
            tunnels: self.tunnels@,
            traffic: self.traffic,
            desired: self.desired@,
            needs_auth: self.needs_auth@,
        }
    }
}

/// The tunnel of a profile was started and its worker still runs.
pub open spec fn is_up<H>(state: RuntimeModel<H>, id: Seq<char>, running: bool) -> bool {
    state.tunnels.dom().contains(id) && running
}

/// The handle of a profile's tunnel.
pub open spec fn handle_of<H>(state: RuntimeModel<H>, id: Seq<char>) -> Option<H> {
    if state.tunnels.dom().contains(id) {
        Some(state.tunnels[id])
    } else {
        None
    }
}

/// The state without the tunnel of a profile.
pub open spec fn dropped<H>(state: RuntimeModel<H>, id: Seq<char>) -> RuntimeModel<H> {
    RuntimeModel { tunnels: state.tunnels.remove(id), ..state }
}

/// The state after a look at a tunnel: one that has ended is dropped.
pub open spec fn observed<H>(state: RuntimeModel<H>, id: Seq<char>, running: bool) -> RuntimeModel<
    H,
> {
    if is_up(state, id, running) {
        state
    } else {
        dropped(state, id)
    }
}

/// The handle that a look at a tunnel gives back: that of one that has ended.
pub open spec fn ended_handle<H>(state: RuntimeModel<H>, id: Seq<char>, running: bool) -> Option<
    H,
> {
    if is_up(state, id, running) {
        None
    } else {
        handle_of(state, id)
    }
}

/// The status that a look at a tunnel finds.
pub open spec fn seen_status<H>(
    state: RuntimeModel<H>,
    id: Seq<char>,
    running: bool,
) -> TunnelStatus {
    if !state.tunnels.dom().contains(id) {
        TunnelStatus::Stopped
    } else if running {
        TunnelStatus::Running
    } else {
        TunnelStatus::Exited
    }
}

/// The status that is shown for a profile: one that needs a login says so unless
/// its tunnel runs, and a tunnel with a second factor needs one as soon as it has
/// ended.
pub open spec fn shown_status<H>(
    state: RuntimeModel<H>,
    config: ConfigModel,
    running: bool,
) -> TunnelStatus {
    let seen = seen_status(state, config.id, running);
    if seen == TunnelStatus::Running {
        TunnelStatus::Running
    } else if state.needs_auth.contains(config.id) {
        TunnelStatus::NeedsAuth
    } else if seen == TunnelStatus::Exited && config.auth_profile == AuthProfile::Mfa {
        TunnelStatus::NeedsAuth
    } else {
        seen
    }
}

/// The state once the status of a profile has been shown.
pub open spec fn shown<H>(
    state: RuntimeModel<H>,
    config: ConfigModel,
    running: bool,
) -> RuntimeModel<H> {
    let after = observed(state, config.id, running);
    if shown_status(state, config, running) == TunnelStatus::NeedsAuth {
        RuntimeModel { needs_auth: after.needs_auth.insert(config.id), ..after }
    } else {
        after
    }
}

/// The state once a profile is wanted.
pub open spec fn wanted<H>(state: RuntimeModel<H>, id: Seq<char>) -> RuntimeModel<H> {
    RuntimeModel { desired: state.desired.insert(id), ..state }
}

/// The state once a tunnel has been started.
pub open spec fn up<H>(state: RuntimeModel<H>, id: Seq<char>, handle: H) -> RuntimeModel<H> {
    RuntimeModel {
        tunnels: state.tunnels.insert(id, handle),
        needs_auth: state.needs_auth.remove(id),
        ..state
    }
}

/// The state once a wanted tunnel could not be started.
pub open spec fn given_up<H>(
    state: RuntimeModel<H>,
    config: ConfigModel,
    error: Seq<char>,
) -> RuntimeModel<H> {
    RuntimeModel {
        desired: state.desired.remove(config.id),
        needs_auth: if service::failure_kind(config.auth_profile, error)
            == ServiceFailureKind::Auth {
            state.needs_auth.insert(config.id)
        } else {
            state.needs_auth
        },
        ..state
    }
}

/// The state once a profile was stopped.
pub open spec fn stopped<H>(state: RuntimeModel<H>, id: Seq<char>) -> RuntimeModel<H> {
    RuntimeModel {
        tunnels: state.tunnels.remove(id),
        desired: state.desired.remove(id),
        needs_auth: state.needs_auth.remove(id),
        ..state
    }
}

/// The state once a row of profiles was stopped.
pub open spec fn all_stopped<H>(state: RuntimeModel<H>, ids: Seq<Seq<char>>) -> RuntimeModel<H>
    decreases ids.len(),
{
    if ids.len() == 0 {
        state
    } else {
        stopped(all_stopped(state, ids.drop_last()), ids.last())
    }
}

/// The handles that stopping a row of profiles gives back, in that order.
pub open spec fn handles_stopped<H>(state: RuntimeModel<H>, ids: Seq<Seq<char>>) -> Seq<H>
    decreases ids.len(),
{
    if ids.len() == 0 {
        Seq::empty()
    } else {
        let before = all_stopped(state, ids.drop_last());
        let handles = handles_stopped(state, ids.drop_last());
        match handle_of(before, ids.last()) {
            Some(handle) => handles.push(handle),
            None => handles,
        }
    }
}

/// The state with no tunnel, wanted or not.
pub open spec fn terminated<H>(state: RuntimeModel<H>) -> RuntimeModel<H> {
    RuntimeModel {
        tunnels: Map::empty(),
        desired: Set::empty(),
        needs_auth: Set::empty(),
        ..state
    }
}

/// The ids of a row of profiles.
pub open spec fn config_ids(configs: Seq<SshConfig>) -> Seq<Seq<char>> {
    configs.map_values(|config: SshConfig| config.id@)
}

/// The profiles of a row whose worker has ended.
pub open spec fn ended_ids(order: Seq<Seq<char>>, running: Seq<bool>) -> Seq<Seq<char>>
    decreases order.len(),
{
    if order.len() == 0 || running.len() != order.len() {
        Seq::empty()
    } else {
        let before = ended_ids(order.drop_last(), running.drop_last());
        if running.last() {
            before
        } else {
            before.push(order.last())
        }
    }
}

/// The last saved profile with an id.
pub open spec fn last_with(configs: Seq<ConfigModel>, id: Seq<char>) -> Option<ConfigModel>
    decreases configs.len(),
{
    if configs.len() == 0 {
        None
    } else if configs.last().id == id {
        Some(configs.last())
    } else {
        last_with(configs.drop_last(), id)
    }
}

/// A profile whose tunnel is started again when it has ended: one that wants
/// that and takes no second factor.
pub open spec fn reconnects(config: ConfigModel) -> bool {
    config.auth_profile != AuthProfile::Mfa && config.auto_reconnect
}

/// The saved profiles with one of the given ids whose tunnels are started again.
pub open spec fn reconnecting(order: Seq<Seq<char>>, configs: Seq<ConfigModel>) -> Seq<ConfigModel>
    decreases order.len(),
{
    if order.len() == 0 {
        Seq::empty()
    } else {
        let before = reconnecting(order.drop_last(), configs);
        match last_with(configs, order.last()) {
            Some(config) => if reconnects(config) {
                before.push(config)
            } else {
                before
            },
            None => before,
        }
    }
}

/// The sum of a row of counts.
pub open spec fn total(counts: Seq<u64>) -> nat
    decreases counts.len(),
{
    if counts.len() == 0 {
        0
    } else {
        total(counts.drop_last()) + counts.last() as nat
    }
}

proof fn lemma_total_grows(counts: Seq<u64>, n: int)
    requires
        0 <= n <= counts.len(),
    ensures
        total(counts.take(n)) <= total(counts),
    decreases counts.len() - n,
{
    if n < counts.len() {
        lemma_total_grows(counts, n + 1);
        assert(counts.take(n + 1).drop_last() == counts.take(n));
    } else {
        assert(counts.take(n) == counts);
    }
}

/// The bytes that all tunnels have forwarded, from what each has.
pub fn tunnel_bytes_total(counts: &Vec<u64>) -> (bytes: u64)
    requires
        total(counts@) <= u64::MAX,
    ensures
        bytes == total(counts@),
{
    let mut bytes: u64 = 0;
    let mut i: usize = 0;
    while i < counts.len()
        invariant
            i <= counts@.len(),
            bytes == total(counts@.take(i as int)),
            total(counts@) <= u64::MAX,
        decreases counts.len() - i,
    {
        proof {
            lemma_total_grows(counts@, i + 1);
            assert(counts@.take(i + 1).drop_last() == counts@.take(i as int));
        }
        bytes = bytes + counts[i];
        i = i + 1;
    }
    assert(counts@.take(i as int) == counts@);
    bytes
}

/// The clients on this machine, from the kind of each tunnel and the number of
/// clients that it has: those of a remote tunnel are on the server and do not
/// count.
pub open spec fn local_clients(tunnels: Seq<(TunnelType, u64)>) -> nat
    decreases tunnels.len(),
{
    if tunnels.len() == 0 {
        0
    } else {
        let (kind, clients) = tunnels.last();
        local_clients(tunnels.drop_last()) + if kind == TunnelType::Remote {
            0
        } else {
            clients as nat
        }
    }
}

proof fn lemma_local_clients_grow(tunnels: Seq<(TunnelType, u64)>, n: int)
    requires
        0 <= n <= tunnels.len(),
    ensures
        local_clients(tunnels.take(n)) <= local_clients(tunnels),
    decreases tunnels.len() - n,
{
    if n < tunnels.len() {
        lemma_local_clients_grow(tunnels, n + 1);
        assert(tunnels.take(n + 1).drop_last() == tunnels.take(n));
    } else {
        assert(tunnels.take(n) == tunnels);
    }
}

/// The number of clients on this machine, from the kind of each tunnel and the
/// number of clients that it has: the clients of local and dynamic tunnels.
pub fn active_tunnel_connection_count(tunnels: &Vec<(TunnelType, u64)>) -> (clients: u64)
    requires
        local_clients(tunnels@) <= u64::MAX,
    ensures
        clients == local_clients(tunnels@),
{
    let mut clients: u64 = 0;
    let mut i: usize = 0;
    while i < tunnels.len()
        invariant
            i <= tunnels@.len(),
            clients == local_clients(tunnels@.take(i as int)),
            local_clients(tunnels@) <= u64::MAX,
        decreases tunnels.len() - i,
    {
        proof {
            lemma_local_clients_grow(tunnels@, i + 1);
            assert(tunnels@.take(i + 1).drop_last() == tunnels@.take(i as int));
            assert(tunnels@.take(i + 1).last() == tunnels@[i as int]);
        }
        let (kind, count) = tunnels[i];
        if kind != TunnelType::Remote {
            clients = clients + count;
        }
        i = i + 1;
    }
    assert(tunnels@.take(i as int) == tunnels@);
    clients
}

/// What came in between two looks at the traffic.
#[derive(Debug, Clone, Copy, PartialEq, Eq, Structural)]
pub struct TrafficDelta {
    /// Bytes forwarded; none where the count has gone down.
    pub bytes: u64,
    /// Nanoseconds gone by.
    pub nanoseconds: u128,
}

/// What came in between the last look at the traffic and this one, if there was
/// one and time has gone by.
pub open spec fn traffic_since(
    last: Option<TrafficSnapshot>,
    now: u128,
    bytes_total: u64,
) -> Option<TrafficDelta> {
    match last {
        Some(last) => if now > last.captured_at {
            Some(
                TrafficDelta {
                    bytes: if bytes_total > last.bytes_total {
                        (bytes_total - last.bytes_total) as u64
                    } else {
                        0
                    },
                    nanoseconds: (now - last.captured_at) as u128,
                },
            )
        } else {
            None
        },
        None => None,
    }
}

pub proof fn lemma_ended_ids(order: Seq<Seq<char>>, running: Seq<bool>)
    requires
        order.no_duplicates(),
        order.len() == running.len(),
    ensures
        ended_ids(order, running).no_duplicates(),
        forall|id: Seq<char>| #[trigger]
            ended_ids(order, running).contains(id) <==> exists|i: int|
                0 <= i < order.len() && #[trigger] order[i] == id && !running[i],
    decreases order.len(),
{
    if order.len() > 0 {
        let n = order.len() - 1;
        let fewer = order.drop_last();
        let flags = running.drop_last();
        lemma_ended_ids(fewer, flags);
        let before = ended_ids(fewer, flags);
        let after = ended_ids(order, running);
        assert forall|id: Seq<char>| #[trigger] after.contains(id) <==> exists|i: int|
            0 <= i < order.len() && #[trigger] order[i] == id && !running[i] by {
            if after.contains(id) {
                let j = after.index_of(id);
                if j < before.len() {
                    assert(before[j] == id);
                    assert(before.contains(id));
                    let i = choose|i: int| 0 <= i < fewer.len() && fewer[i] == id && !flags[i];
                    assert(order[i] == id && !running[i]);
                } else {
                    assert(order[n] == id && !running[n]);
                }
            }
            if exists|i: int| 0 <= i < order.len() && #[trigger] order[i] == id && !running[i] {
                let i = choose|i: int|
                    0 <= i < order.len() && #[trigger] order[i] == id && !running[i];
                if i < n {
                    assert(fewer[i] == id && !flags[i]);
                    assert(before.contains(id));
                    let j = before.index_of(id);
                    assert(after[j] == id);
                } else {
                    assert(after[before.len() as int] == id);
                }
            }
        }
        if !running[n] {
            assert(!before.contains(order[n])) by {
                if before.contains(order[n]) {
                    let i = choose|i: int| 0 <= i < fewer.len() && fewer[i] == order[n]
                        && !flags[i];
                    assert(order[i] == order[n]);
                }
            }
        }
    }
}

/// What follows once a tunnel has been asked for.
#[derive(Debug)]
pub enum StartAction {
    /// Find out whether its port is free.
    TestPort,
    /// Make sure that it has not come up in the meantime.
    Claim,
    /// Start it.
    Connect,
    /// It is up.
    Up,
    /// It is not started, for this reason.
    Fail(String),
}

/// What follows from what came of listening on a profile's port: a tunnel whose
/// port is not free is not started.
pub fn port_tested(config: &SshConfig, bound: Result<(), String>) -> (action: StartAction)
    ensures
        match action {
            StartAction::Claim => config.tunnel_type == TunnelType::Remote || bound is Ok,
            StartAction::Fail(message) => {
                &&& config.tunnel_type != TunnelType::Remote
                &&& bound is Err
                &&& message@ == tunnel::port_in_use(config.local_port, bound->Err_0@)
            },
            _ => false,
        },
{
    match ensure_local_port_available(config, bound) {
        Ok(()) => StartAction::Claim,
        Err(message) => StartAction::Fail(message),
    }
}

impl<H> RuntimeState<H> {
    /// Each profile has one handle at most.
    pub closed spec fn wf(&self) -> bool {
        &&& self.tunnels.wf()
        &&& self.desired.wf()
        &&& self.needs_auth.wf()
    }

    /// The profiles with a tunnel, in the order in which [`RuntimeState::handles`]
    /// gives the handles.
    pub closed spec fn tunnel_order(&self) -> Seq<Seq<char>> {
        self.tunnels.key_order()
    }

    /// Every profile with a tunnel has one place in the order.
    pub proof fn lemma_tunnel_order(&self)
        requires
            self.wf(),
        ensures
            self.tunnel_order().no_duplicates(),
            self.tunnel_order().to_set() == self@.tunnels.dom(),
            self.tunnel_order().len() == self@.tunnels.dom().len(),
            self@.tunnels.dom().finite(),
    {
        self.tunnels.lemma_key_order();
    }

    /// A service with no tunnels.
    pub fn new() -> (state: RuntimeState<H>)
        ensures
            state.wf(),
            state@ == (RuntimeModel::<H> {
                tunnels: Map::empty(),
                traffic: None,
                desired: Set::empty(),
                needs_auth: Set::empty(),
            }),
    {
        RuntimeState {
            tunnels: IdMap::new(),
            traffic: None,
            desired: IdSet::new(),
            needs_auth: IdSet::new(),
        }
    }

    /// The handle of a profile's tunnel.
    pub fn handle(&self, id: &str) -> (handle: Option<&H>)
        requires
            self.wf(),
        ensures
            match handle {
                Some(handle) => handle_of(self@, id@) == Some(*handle),
                None => handle_of(self@, id@) is None,
            },
    {
        self.tunnels.get(id)
    }

    /// The handles of all tunnels.
    pub fn handles(&self) -> (handles: &Vec<H>)
        requires
            self.wf(),
        ensures
            handles@ == self.tunnel_order().map_values(|id: Seq<char>| self@.tunnels[id]),
    {
        let handles = self.tunnels.values();
        assert(handles@ =~= self.tunnel_order().map_values(|id: Seq<char>| self@.tunnels[id]));
        handles
    }

    /// The number of tunnels.
    pub fn tunnel_count(&self) -> (count: usize)
        requires
            self.wf(),
        ensures
            count == self@.tunnels.dom().len(),
            self@.tunnels.dom().finite(),
    {
        self.tunnels.len()
    }

    /// Whether a profile's tunnel is wanted.
    pub fn is_desired(&self, id: &str) -> (yes: bool)
        ensures
            yes == self@.desired.contains(id@),
    {
        self.desired.contains(id)
    }

    /// Whether the user of a profile has to log in again.
    pub fn login_needed(&self, id: &str) -> (yes: bool)
        ensures
            yes == self@.needs_auth.contains(id@),
    {
        self.needs_auth.contains(id)
    }

    /// Whether no tunnel is up, wanted or waiting for a login.
    pub fn is_idle(&self) -> (yes: bool)
        requires
            self.wf(),
        ensures
            yes == (self@ == terminated(self@)),
    {
        let no_tunnels = self.tunnels.len() == 0;
        proof {
            if no_tunnels {
                assert(self@.tunnels =~= Map::empty());
            }
        }
        no_tunnels && self.desired.is_empty() && self.needs_auth.is_empty()
    }

    /// Looks at a tunnel, whose worker still runs or does not: drops it if it has
    /// ended, and gives its handle back.
    pub fn mark_status(&mut self, id: &str, running: bool) -> (seen: (TunnelStatus, Option<H>))
        requires
            old(self).wf(),
        ensures
            final(self).wf(),
            final(self)@ == observed(old(self)@, id@, running),
            seen.0 == seen_status(old(self)@, id@, running),
            seen.1 == ended_handle(old(self)@, id@, running),
    {
        let known = self.tunnels.get(id).is_some();
        if !known {
            assert(self@ =~= dropped(self@, id@));
            return (TunnelStatus::Stopped, None);
        }
        if running {
            return (TunnelStatus::Running, None);
        }
        let handle = self.tunnels.remove(id);
        (TunnelStatus::Exited, handle)
    }

    /// Whether a profile's tunnel is up; drops one that has ended, and gives its
    /// handle back.
    pub fn tunnel_is_running(&mut self, id: &str, running: bool) -> (seen: (bool, Option<H>))
        requires
            old(self).wf(),
        ensures
            final(self).wf(),
            final(self)@ == observed(old(self)@, id@, running),
            seen.0 == is_up(old(self)@, id@, running),
            seen.1 == ended_handle(old(self)@, id@, running),
    {
        let (status, handle) = self.mark_status(id, running);
        (status == TunnelStatus::Running, handle)
    }

    /// The status to show for a profile; drops a tunnel that has ended, and gives
    /// its handle back.
    pub fn tunnel_status(&mut self, config: &SshConfig, running: bool) -> (seen: (
        TunnelStatus,
        Option<H>,
    ))
        requires
            old(self).wf(),
        ensures
            final(self).wf(),
            final(self)@ == shown(old(self)@, config@, running),
            seen.0 == shown_status(old(self)@, config@, running),
            seen.1 == ended_handle(old(self)@, config.id@, running),
    {
        let id = config.id.as_str();
        let (status, handle) = self.mark_status(id, running);
        if status == TunnelStatus::Running {
            return (TunnelStatus::Running, handle);
        }
        if self.needs_auth.contains(id) {
            assert(self.needs_auth@ =~= self.needs_auth@.insert(config.id@));
            return (TunnelStatus::NeedsAuth, handle);
        }
        if status == TunnelStatus::Exited && config.auth_profile == AuthProfile::Mfa {
            self.needs_auth.insert(config.id.clone());
            return (TunnelStatus::NeedsAuth, handle);
        }
        (status, handle)
    }

    /// A profile's tunnel has been asked for: refuses one that is not valid, and
    /// otherwise wants its tunnel. Drops a tunnel that has ended, and gives its
    /// handle back. Only a tunnel that listens on this machine needs its port to be
    /// free.
    pub fn begin_start(&mut self, config: &SshConfig, running: bool) -> (begun: (
        StartAction,
        Option<H>,
    ))
        requires
            old(self).wf(),
        ensures
            final(self).wf(),
            match config::config_error(config@) {
                Some(error) => {
                    &&& begun.0 matches StartAction::Fail(message) && message@ == error
                    &&& begun.1 is None
                    &&& final(self)@ == old(self)@
                },
                None => if is_up(old(self)@, config.id@, running) {
                    &&& begun.0 is Up
                    &&& begun.1 is None
                    &&& final(self)@ == wanted(old(self)@, config.id@)
                } else {
                    &&& config.tunnel_type == TunnelType::Remote ==> begun.0 is Claim
                    &&& config.tunnel_type != TunnelType::Remote ==> begun.0 is TestPort
                    &&& begun.1 == handle_of(old(self)@, config.id@)
                    &&& final(self)@ == dropped(wanted(old(self)@, config.id@), config.id@)
                },
            },
    {
        match validate_config(config) {
            Ok(()) => {},
            Err(message) => {
                return (StartAction::Fail(message), None);
            },
        }
        self.desired.insert(config.id.clone());
        let (up, handle) = self.tunnel_is_running(config.id.as_str(), running);
        if up {
            (StartAction::Up, None)
        } else if listens_locally(config) {
            (StartAction::TestPort, handle)
        } else {
            (StartAction::Claim, handle)
        }
    }

    /// Goes on to start a tunnel unless it is up by now. Drops one that has ended,
    /// and gives its handle back.
    pub fn claim_start(&mut self, id: &str, running: bool) -> (claimed: (StartAction, Option<H>))
        requires
            old(self).wf(),
        ensures
            final(self).wf(),
            final(self)@ == observed(old(self)@, id@, running),
            is_up(old(self)@, id@, running) ==> claimed.0 is Up,
            !is_up(old(self)@, id@, running) ==> claimed.0 is Connect,
            claimed.1 == ended_handle(old(self)@, id@, running),
    {
        let (up, handle) = self.tunnel_is_running(id, running);
        if up {
            (StartAction::Up, handle)
        } else {
            (StartAction::Connect, handle)
        }
    }

    /// What came of starting a profile's tunnel that was asked for: it is up and
    /// held, or it is no longer wanted.
    pub fn finish_start(&mut self, config: &SshConfig, result: Result<H, String>) -> (action:
        StartAction)
        requires
            old(self).wf(),
        ensures
            final(self).wf(),
            match result {
                Ok(handle) => {
                    &&& action is Up
                    &&& final(self)@ == up(old(self)@, config.id@, handle)
                },
                Err(error) => {
                    &&& action matches StartAction::Fail(message) && message@ == error@
                    &&& final(self)@ == given_up(old(self)@, config@, error@)
                },
            },
    {
        match result {
            Ok(handle) => {
                self.started(config.id.clone(), handle);
                StartAction::Up
            },
            Err(error) => {
                self.start_failed(config, error.as_str());
                StartAction::Fail(error)
            },
        }
    }

    /// A profile's tunnel has been started.
    pub fn started(&mut self, id: String, handle: H)
        requires
            old(self).wf(),
        ensures
            final(self).wf(),
            final(self)@ == up(old(self)@, id@, handle),
    {
        self.needs_auth.remove(id.as_str());
        self.tunnels.insert(id, handle);
    }

    /// A profile's tunnel that was asked for could not be started, for this reason:
    /// it is no longer wanted, and a failure to authenticate waits for a login.
    pub fn start_failed(&mut self, config: &SshConfig, error: &str)
        requires
            old(self).wf(),
        ensures
            final(self).wf(),
            final(self)@ == given_up(old(self)@, config@, error@),
    {
        self.desired.remove(config.id.as_str());
        if should_mark_needs_auth(config, error) {
            self.needs_auth.insert(config.id.clone());
        }
    }

    /// Stops a profile's tunnel, wanted or not, and gives its handle back.
    pub fn stop_tunnel_by_id(&mut self, id: &str) -> (handle: Option<H>)
        requires
            old(self).wf(),
        ensures
            final(self).wf(),
            final(self)@ == stopped(old(self)@, id@),
            handle == handle_of(old(self)@, id@),
    {
        self.desired.remove(id);
        self.needs_auth.remove(id);
        self.tunnels.remove(id)
    }

    fn stop_into(&mut self, id: &str, handles: &mut Vec<H>)
        requires
            old(self).wf(),
        ensures
            final(self).wf(),
            final(self)@ == stopped(old(self)@, id@),
            final(handles)@ == match handle_of(old(self)@, id@) {
                Some(handle) => old(handles)@.push(handle),
                None => old(handles)@,
            },
    {
        match self.stop_tunnel_by_id(id) {
            Some(handle) => handles.push(handle),
            None => {},
        }
    }

    /// Stops the tunnels of all saved profiles, then any others; gives the handles
    /// back in that order.
    pub fn stop_service(&mut self, connections: &Vec<SshConfig>) -> (handles: Vec<H>)
        requires
            old(self).wf(),
        ensures
            final(self).wf(),
            final(self)@ == all_stopped(
                old(self)@,
                config_ids(connections@) + old(self).tunnel_order(),
            ),
            handles@ == handles_stopped(
                old(self)@,
                config_ids(connections@) + old(self).tunnel_order(),
            ),
            final(self)@.tunnels == Map::<Seq<char>, H>::empty(),
    {
        let ghost saved = config_ids(connections@);
        let ghost order = self.tunnel_order();
        let mut others: Vec<String> = Vec::new();
        let mut i: usize = 0;
        while i < self.tunnels.keys().len()
            invariant
                *self == *old(self),
                self.wf(),
                order == self.tunnel_order(),
                i <= order.len(),
                ids::names(others@) == order.take(i as int),
            decreases order.len() - i,
        {
            let ghost before = others@;
            let id = self.tunnels.keys()[i].clone();
            others.push(id);
            assert(ids::names(others@) == ids::names(before).push(id@));
            assert(order.take(i + 1) == order.take(i as int).push(order[i as int]));
            i = i + 1;
        }
        assert(order.take(i as int) == order);

        let mut handles: Vec<H> = Vec::new();
        let mut j: usize = 0;
        assert(saved.take(0) == Seq::<Seq<char>>::empty());
        while j < connections.len()
            invariant
                self.wf(),
                saved == config_ids(connections@),
                j <= connections@.len(),
                self@ == all_stopped(old(self)@, saved.take(j as int)),
                handles@ == handles_stopped(old(self)@, saved.take(j as int)),
            decreases connections.len() - j,
        {
            assert(saved.take(j + 1).drop_last() == saved.take(j as int));
            assert(saved.take(j + 1).last() == connections@[j as int].id@);
            self.stop_into(connections[j].id.as_str(), &mut handles);
            j = j + 1;
        }
        assert(saved.take(j as int) == saved);

        let ghost all = saved + order;
        let mut k: usize = 0;
        assert(all.take(saved.len() as int) == saved);
        while k < others.len()
            invariant
                self.wf(),
                all == saved + order,
                ids::names(others@) == order,
                k <= others@.len(),
                self@ == all_stopped(old(self)@, all.take(saved.len() + k)),
                handles@ == handles_stopped(old(self)@, all.take(saved.len() + k)),
            decreases others.len() - k,
        {
            assert(all.take(saved.len() + k + 1).drop_last() == all.take(saved.len() + k));
            assert(all.take(saved.len() + k + 1).last() == ids::names(others@)[k as int]);
            self.stop_into(others[k].as_str(), &mut handles);
            k = k + 1;
        }
        proof {
            assert(all.take(saved.len() + k) == all);
            old(self).lemma_tunnel_order();
            runtime_laws::law_stop_service_stops_everything(old(self)@, saved, order);
        }
        handles
    }

    /// Ends everything: no tunnel is up, wanted or waiting for a login any more.
    /// Gives the handles back.
    pub fn terminate_managed_children(&mut self) -> (handles: Vec<H>)
        requires
            old(self).wf(),
        ensures
            final(self).wf(),
            final(self)@ == terminated(old(self)@),
            handles@ == old(self).tunnel_order().map_values(
                |id: Seq<char>| old(self)@.tunnels[id],
            ),
    {
        let handles = self.tunnels.drain();
        self.desired.clear();
        self.needs_auth.clear();
        assert(handles@ =~= old(self).tunnel_order().map_values(
            |id: Seq<char>| old(self)@.tunnels[id],
        ));
        handles
    }

    /// Drops the tunnels that have ended; gives the ids of the others, each once,
    /// and the handles of those dropped. Whether the worker of each handle still
    /// runs is given in the order of [`RuntimeState::handles`].
    pub fn active_tunnel_ids(&mut self, running: &Vec<bool>) -> (active: (Vec<String>, Vec<H>))
        requires
            old(self).wf(),
            running@.len() == old(self).tunnel_order().len(),
        ensures
            final(self).wf(),
            final(self)@ == (RuntimeModel {
                tunnels: old(self)@.tunnels.remove_keys(
                    ended_ids(old(self).tunnel_order(), running@).to_set(),
                ),
                ..old(self)@
            }),
            ids::names(active.0@) == final(self).tunnel_order(),
            active.1@ == ended_ids(old(self).tunnel_order(), running@).map_values(
                |id: Seq<char>| old(self)@.tunnels[id],
            ),
    {
        let ghost order = self.tunnel_order();
        let ghost before = self@;
        let ghost ended = ended_ids(order, running@);
        let ghost handle = |id: Seq<char>| old(self)@.tunnels[id];
        proof {
            self.lemma_tunnel_order();
            lemma_ended_ids(order, running@);
        }
        let mut inactive: Vec<String> = Vec::new();
        let mut i: usize = 0;
        while i < running.len()
            invariant
                *self == *old(self),
                self.wf(),
                order == self.tunnel_order(),
                order.len() == running@.len(),
                i <= order.len(),
                ids::names(inactive@) == ended_ids(order.take(i as int), running@.take(i as int)),
            decreases order.len() - i,
        {
            let ghost so_far = inactive@;
            assert(order.take(i + 1).drop_last() == order.take(i as int));
            assert(running@.take(i + 1).drop_last() == running@.take(i as int));
            if !running[i] {
                let id = self.tunnels.keys()[i].clone();
                inactive.push(id);
                assert(ids::names(inactive@) == ids::names(so_far).push(id@));
            }
            i = i + 1;
        }
        assert(order.take(i as int) == order);
        assert(running@.take(i as int) == running@);

        let mut handles: Vec<H> = Vec::new();
        let mut j: usize = 0;
        assert(before.tunnels.remove_keys(ended.take(0).to_set()) =~= before.tunnels);
        while j < inactive.len()
            invariant
                self.wf(),
                before == old(self)@,
                ended == ids::names(inactive@),
                ended.no_duplicates(),
                forall|id: Seq<char>| #[trigger]
                    ended.contains(id) ==> before.tunnels.dom().contains(id),
                handle == (|id: Seq<char>| old(self)@.tunnels[id]),
                j <= inactive@.len(),
                self@.traffic == before.traffic,
                self@.desired == before.desired,
                self@.needs_auth == before.needs_auth,
                self@.tunnels == before.tunnels.remove_keys(ended.take(j as int).to_set()),
                handles@ == ended.take(j as int).map_values(handle),
            decreases inactive.len() - j,
        {
            let ghost gone = ended.take(j as int);
            let ghost id = ended[j as int];
            proof {
                assert(ended.contains(id));
                assert(!gone.contains(id));
                assert(ended.take(j + 1) == gone.push(id));
                assert(gone.push(id).to_set() =~= gone.to_set().insert(id)) by {
                    assert forall|k: Seq<char>| gone.push(id).contains(k) == (gone.contains(k) || k
                        == id) by {
                        if gone.contains(k) {
                            assert(gone.push(id)[gone.index_of(k)] == k);
                        }
                        assert(gone.push(id)[gone.len() as int] == id);
                    }
                }
                assert(before.tunnels.remove_keys(gone.to_set()).remove(id)
                    =~= before.tunnels.remove_keys(gone.push(id).to_set()));
                assert(gone.push(id).map_values(handle) =~= gone.map_values(handle).push(
                    handle(id),
                ));
            }
            match self.tunnels.remove(inactive[j].as_str()) {
                Some(tunnel) => handles.push(tunnel),
                None => {},
            }
            j = j + 1;
        }
        assert(ended.take(j as int) == ended);

        let mut active: Vec<String> = Vec::new();
        let ghost left = self.tunnel_order();
        let mut k: usize = 0;
        while k < self.tunnels.keys().len()
            invariant
                self.wf(),
                left == self.tunnel_order(),
                k <= left.len(),
                ids::names(active@) == left.take(k as int),
            decreases left.len() - k,
        {
            let ghost so_far = active@;
            let id = self.tunnels.keys()[k].clone();
            active.push(id);
            assert(ids::names(active@) == ids::names(so_far).push(id@));
            assert(left.take(k + 1) == left.take(k as int).push(left[k as int]));
            k = k + 1;
        }
        assert(left.take(k as int) == left);
        (active, handles)
    }

    /// The wanted profiles, in the order in which they are looked at.
    pub closed spec fn desired_order(&self) -> Seq<Seq<char>> {
        self.desired.order()
    }

    /// Every wanted profile has one place in the order.
    pub proof fn lemma_desired_order(&self)
        requires
            self.wf(),
        ensures
            self.desired_order().no_duplicates(),
            self.desired_order().to_set() == self@.desired,
    {
        self.desired.lemma_order();
    }

    /// The saved profiles that are wanted and whose tunnels are started again when
    /// they have ended.
    pub fn reconcile_runtime(&self, connections: &Vec<SshConfig>) -> (picked: Vec<SshConfig>)
        requires
            self.wf(),
        ensures
            config::models(picked@) == reconnecting(
                self.desired_order(),
                config::models(connections@),
            ),
            self.desired_order().no_duplicates(),
            self.desired_order().to_set() == self@.desired,
    {
        proof {
            self.lemma_desired_order();
        }
        let ghost order = self.desired_order();
        let ghost saved = config::models(connections@);
        let wanted = self.desired.ids();
        let mut picked: Vec<SshConfig> = Vec::new();
        let mut i: usize = 0;
        while i < wanted.len()
            invariant
                order == ids::names(wanted@),
                saved == config::models(connections@),
                i <= wanted@.len(),
                config::models(picked@) == reconnecting(order.take(i as int), saved),
            decreases wanted.len() - i,
        {
            let ghost before = picked@;
            assert(order.take(i + 1).drop_last() == order.take(i as int));
            assert(order.take(i + 1).last() == order[i as int]);
            match last_config(connections, wanted[i].as_str()) {
                Some(at) => {
                    let config = &connections[at];
                    if config.auth_profile != AuthProfile::Mfa && config.auto_reconnect {
                        let config = config.clone();
                        picked.push(config);
                        assert(config::models(picked@) == config::models(before).push(config@));
                    }
                },
                None => {},
            }
            i = i + 1;
        }
        assert(order.take(i as int) == order);
        picked
    }

    /// Takes a look at the traffic, at a time in nanoseconds and with the bytes
    /// forwarded so far: what came in since the last look.
    pub fn sample_tunnel_traffic(&mut self, now: u128, bytes_total: u64) -> (since: Option<
        TrafficDelta,
    >)
        requires
            old(self).wf(),
        ensures
            final(self).wf(),
            final(self)@ == (RuntimeModel {
                traffic: Some(TrafficSnapshot { captured_at: now, bytes_total }),
                ..old(self)@
            }),
            since == traffic_since(old(self)@.traffic, now, bytes_total),
    {
        let since = match self.traffic {
            Some(last) => if now > last.captured_at {
                Some(
                    TrafficDelta {
                        bytes: bytes_total.saturating_sub(last.bytes_total),
                        nanoseconds: now - last.captured_at,
                    },
                )
            } else {
                None
            },
            None => None,
        };
        self.traffic = Some(TrafficSnapshot { captured_at: now, bytes_total });
        since
    }
}

fn last_config(connections: &Vec<SshConfig>, id: &str) -> (at: Option<usize>)
    ensures
        match at {
            Some(i) => i < connections@.len() && last_with(config::models(connections@), id@)
                == Some(connections@[i as int]@),
            None => last_with(config::models(connections@), id@) is None,
        },
{
    let ghost saved = config::models(connections@);
    let mut n: usize = connections.len();
    assert(saved.take(n as int) == saved);
    while n > 0
        invariant
            n <= connections@.len(),
            saved == config::models(connections@),
            last_with(saved.take(n as int), id@) == last_with(saved, id@),
        decreases n,
    {
        assert(saved.take(n as int).drop_last() == saved.take(n - 1));
        if same_str(connections[n - 1].id.as_str(), id) {
            return Some(n - 1);
        }
        n = n - 1;
    }
    None
}

} // verus!
