//! What holds of the tunnels of the service, whatever is done with them.
use vstd::prelude::*;
use crate::config;
use crate::config::{AuthProfile, ConfigModel, SshConfig, TunnelType};
use crate::ids;
use crate::runtime;
use crate::runtime::{port_tested, RuntimeModel, RuntimeState, StartAction, TrafficDelta};
use crate::service;
use crate::service::{ServiceFailureKind, TunnelStatus};

verus! {

/// A tunnel that is held does not wait for a login.
pub open spec fn consistent<H>(state: RuntimeModel<H>) -> bool {
    forall|id: Seq<char>| #[trigger]
        state.tunnels.dom().contains(id) ==> !state.needs_auth.contains(id)
}

/// Everything that can be done to the tunnels keeps it so that no tunnel that is
/// held waits for a login. A start that failed has no handle to hold.
pub proof fn law_held_tunnels_wait_for_no_login<H>(
    state: RuntimeModel<H>,
    config: ConfigModel,
    running: bool,
    handle: H,
    error: Seq<char>,
    ids: Seq<Seq<char>>,
)
    requires
        consistent(state),
    ensures
        consistent(runtime::observed(state, config.id, running)),
        consistent(runtime::shown(state, config, running)),
        consistent(runtime::wanted(state, config.id)),
        consistent(runtime::up(state, config.id, handle)),
        !state.tunnels.dom().contains(config.id) ==> consistent(
            runtime::given_up(state, config, error),
        ),
        consistent(runtime::stopped(state, config.id)),
        consistent(runtime::all_stopped(state, ids)),
        consistent(runtime::terminated(state)),
    decreases ids.len(),
{
    if ids.len() > 0 {
        law_held_tunnels_wait_for_no_login(
            state,
            config,
            running,
            handle,
            error,
            ids.drop_last(),
        );
    }
}

/// The state says the same of a profile as another state does.
pub open spec fn alike<H>(a: RuntimeModel<H>, b: RuntimeModel<H>, id: Seq<char>) -> bool {
    &&& runtime::handle_of(a, id) == runtime::handle_of(b, id)
    &&& a.desired.contains(id) == b.desired.contains(id)
    &&& a.needs_auth.contains(id) == b.needs_auth.contains(id)
}

/// What is done to one profile changes nothing for another.
pub proof fn law_other_profiles_are_untouched<H>(
    state: RuntimeModel<H>,
    config: ConfigModel,
    running: bool,
    handle: H,
    error: Seq<char>,
    other: Seq<char>,
)
    requires
        other != config.id,
    ensures
        alike(runtime::observed(state, config.id, running), state, other),
        alike(runtime::shown(state, config, running), state, other),
        alike(runtime::wanted(state, config.id), state, other),
        alike(runtime::up(state, config.id, handle), state, other),
        alike(runtime::given_up(state, config, error), state, other),
        alike(runtime::stopped(state, config.id), state, other),
{
}

/// Stopping a profile undoes starting it, where it was neither held nor wanted and
/// did not wait for a login.
pub proof fn law_stop_undoes_start<H>(state: RuntimeModel<H>, id: Seq<char>, handle: H)
    requires
        !state.tunnels.dom().contains(id),
        !state.desired.contains(id),
        !state.needs_auth.contains(id),
    ensures
        runtime::stopped(runtime::up(runtime::wanted(state, id), id, handle), id) == state,
{
    assert(runtime::stopped(runtime::up(runtime::wanted(state, id), id, handle), id) =~= state);
}

/// Stopping a profile a second time changes nothing and gives no handle back.
pub proof fn law_stop_twice<H>(state: RuntimeModel<H>, id: Seq<char>)
    ensures
        runtime::stopped(runtime::stopped(state, id), id) == runtime::stopped(state, id),
        runtime::handle_of(runtime::stopped(state, id), id) is None,
{
    assert(runtime::stopped(runtime::stopped(state, id), id) =~= runtime::stopped(state, id));
}

/// A start that failed leaves nothing behind but, perhaps, the need for a login:
/// the profile is as it was before it was asked for, had it been neither wanted
/// nor held.
pub proof fn law_failed_start_is_not_wanted<H>(
    state: RuntimeModel<H>,
    config: ConfigModel,
    error: Seq<char>,
)
    requires
        !state.tunnels.dom().contains(config.id),
        !state.desired.contains(config.id),
    ensures
        ({
            let after = runtime::given_up(runtime::wanted(state, config.id), config, error);
            &&& after.tunnels == state.tunnels
            &&& after.desired == state.desired
            &&& after.traffic == state.traffic
            &&& state.needs_auth.subset_of(after.needs_auth)
        }),
{
    let after = runtime::given_up(runtime::wanted(state, config.id), config, error);
    assert(after.desired =~= state.desired);
}

/// A tunnel that was started is shown as running while its worker runs, and its
/// user need not log in.
pub proof fn law_started_is_running<H>(state: RuntimeModel<H>, config: ConfigModel, handle: H)
    ensures
        ({
            let after = runtime::up(state, config.id, handle);
            &&& runtime::shown_status(after, config, true) == TunnelStatus::Running
            &&& runtime::shown(after, config, true) == after
            &&& runtime::handle_of(after, config.id) == Some(handle)
            &&& !after.needs_auth.contains(config.id)
        }),
{
}

/// A tunnel with a second factor that has ended is shown as needing a login, from
/// then on until it is started again or stopped.
pub proof fn law_ended_mfa_tunnel_needs_login<H>(
    state: RuntimeModel<H>,
    config: ConfigModel,
    later: bool,
)
    requires
        config.auth_profile == AuthProfile::Mfa,
        state.tunnels.dom().contains(config.id),
    ensures
        ({
            let after = runtime::shown(state, config, false);
            &&& runtime::shown_status(state, config, false) == TunnelStatus::NeedsAuth
            &&& runtime::shown_status(after, config, later) == TunnelStatus::NeedsAuth
            &&& runtime::shown(after, config, later) == after
        }),
{
    let after = runtime::shown(state, config, false);
    assert(runtime::shown(after, config, later) =~= after);
}

/// A tunnel without a second factor that has ended is shown as such once, and as
/// stopped from then on.
pub proof fn law_end_is_shown_once<H>(state: RuntimeModel<H>, config: ConfigModel, later: bool)
    requires
        config.auth_profile == AuthProfile::Normal,
        state.tunnels.dom().contains(config.id),
        !state.needs_auth.contains(config.id),
    ensures
        ({
            let after = runtime::shown(state, config, false);
            &&& runtime::shown_status(state, config, false) == TunnelStatus::Exited
            &&& runtime::shown_status(after, config, later) == TunnelStatus::Stopped
            &&& runtime::shown(after, config, later) == after
        }),
{
    let after = runtime::shown(state, config, false);
    assert(runtime::shown(after, config, later) =~= after);
}

proof fn lemma_all_stopped<H>(state: RuntimeModel<H>, ids: Seq<Seq<char>>)
    ensures
        ({
            let after = runtime::all_stopped(state, ids);
            &&& after.traffic == state.traffic
            &&& after.tunnels == state.tunnels.remove_keys(ids.to_set())
            &&& after.desired == state.desired.difference(ids.to_set())
            &&& after.needs_auth == state.needs_auth.difference(ids.to_set())
        }),
    decreases ids.len(),
{
    let after = runtime::all_stopped(state, ids);
    if ids.len() > 0 {
        let fewer = ids.drop_last();
        lemma_all_stopped(state, fewer);
        assert forall|id: Seq<char>| #[trigger] ids.contains(id) == (fewer.contains(id) || id
            == ids.last()) by {
            if ids.contains(id) {
                let i = ids.index_of(id);
                if i < fewer.len() {
                    assert(fewer[i] == id);
                }
            }
            if fewer.contains(id) {
                assert(ids[fewer.index_of(id)] == id);
            }
            assert(ids[ids.len() - 1] == ids.last());
        }
    }
    assert(after.tunnels =~= state.tunnels.remove_keys(ids.to_set()));
    assert(after.desired =~= state.desired.difference(ids.to_set()));
    assert(after.needs_auth =~= state.needs_auth.difference(ids.to_set()));
}

/// Stopping the service stops every tunnel, of a saved profile or not; no saved
/// profile is wanted or waits for a login any more, and neither does any other
/// that had a tunnel. The rest stays as it was.
pub proof fn law_stop_service_stops_everything<H>(
    state: RuntimeModel<H>,
    saved: Seq<Seq<char>>,
    order: Seq<Seq<char>>,
)
    requires
        order.to_set() == state.tunnels.dom(),
    ensures
        ({
            let after = runtime::all_stopped(state, saved + order);
            let gone = saved.to_set().union(state.tunnels.dom());
            &&& after.tunnels == Map::<Seq<char>, H>::empty()
            &&& after.desired == state.desired.difference(gone)
            &&& after.needs_auth == state.needs_auth.difference(gone)
            &&& after.traffic == state.traffic
        }),
{
    let ids = saved + order;
    lemma_all_stopped(state, ids);
    let gone = saved.to_set().union(state.tunnels.dom());
    assert(ids.to_set() =~= gone) by {
        assert forall|id: Seq<char>| ids.contains(id) == (saved.contains(id) || order.contains(
            id,
        )) by {
            if ids.contains(id) {
                let i = ids.index_of(id);
                if i < saved.len() {
                    assert(saved[i] == id);
                } else {
                    assert(order[i - saved.len()] == id);
                }
            }
            if saved.contains(id) {
                assert(ids[saved.index_of(id)] == id);
            }
            if order.contains(id) {
                assert(ids[saved.len() + order.index_of(id)] == id);
            }
        }
        assert forall|id: Seq<char>| ids.to_set().contains(id) == gone.contains(id) by {
            assert(order.to_set().contains(id) == order.contains(id));
        }
    }
    assert(runtime::all_stopped(state, ids).tunnels =~= Map::<Seq<char>, H>::empty());
}

/// The handles of a state are a row of handles: each tunnel's once.
pub open spec fn each_once<H>(
    tunnels: Map<Seq<char>, H>,
    order: Seq<Seq<char>>,
    handles: Seq<H>,
) -> bool {
    &&& order.no_duplicates()
    &&& order.to_set() == tunnels.dom()
    &&& handles == order.map_values(|id: Seq<char>| tunnels[id])
}

/// The ids of a row that have a tunnel when their turn to be stopped comes.
pub open spec fn turns<H>(state: RuntimeModel<H>, ids: Seq<Seq<char>>) -> Seq<Seq<char>>
    decreases ids.len(),
{
    if ids.len() == 0 {
        Seq::empty()
    } else {
        let before = turns(state, ids.drop_last());
        if runtime::all_stopped(state, ids.drop_last()).tunnels.dom().contains(ids.last()) {
            before.push(ids.last())
        } else {
            before
        }
    }
}

proof fn lemma_turns<H>(state: RuntimeModel<H>, ids: Seq<Seq<char>>)
    ensures
        turns(state, ids).no_duplicates(),
        forall|id: Seq<char>| #[trigger]
            turns(state, ids).contains(id) <==> ids.contains(id) && state.tunnels.dom().contains(
                id,
            ),
        runtime::handles_stopped(state, ids) == turns(state, ids).map_values(
            |id: Seq<char>| state.tunnels[id],
        ),
    decreases ids.len(),
{
    let handle = |id: Seq<char>| state.tunnels[id];
    let after = turns(state, ids);
    if ids.len() == 0 {
        assert(runtime::handles_stopped(state, ids) =~= after.map_values(handle));
    } else {
        let fewer = ids.drop_last();
        let last = ids.last();
        let before = turns(state, fewer);
        lemma_turns(state, fewer);
        lemma_all_stopped(state, fewer);
        assert forall|id: Seq<char>| #[trigger] ids.contains(id) == (fewer.contains(id) || id
            == last) by {
            if ids.contains(id) {
                let i = ids.index_of(id);
                if i < fewer.len() {
                    assert(fewer[i] == id);
                }
            }
            if fewer.contains(id) {
                assert(ids[fewer.index_of(id)] == id);
            }
            assert(ids[ids.len() - 1] == last);
        }
        let held = runtime::all_stopped(state, fewer).tunnels;
        assert(held.dom().contains(last) <==> state.tunnels.dom().contains(last)
            && !fewer.contains(last));
        if held.dom().contains(last) {
            assert(held[last] == state.tunnels[last]);
            assert(after == before.push(last));
            assert(!before.contains(last));
            assert forall|i: int, j: int|
                0 <= i < after.len() && 0 <= j < after.len() && i != j implies after[i]
                != after[j] by {
                if i < before.len() {
                    assert(before.contains(before[i]));
                }
                if j < before.len() {
                    assert(before.contains(before[j]));
                }
            }
            assert(before.push(last).map_values(handle) =~= before.map_values(handle).push(
                handle(last),
            ));
            assert forall|id: Seq<char>| #[trigger] after.contains(id) <==> ids.contains(id)
                && state.tunnels.dom().contains(id) by {
                assert(after.contains(id) <==> before.contains(id) || id == last) by {
                    if after.contains(id) {
                        let i = after.index_of(id);
                        if i < before.len() {
                            assert(before[i] == id);
                        }
                    }
                    if before.contains(id) {
                        assert(after[before.index_of(id)] == id);
                    }
                    assert(after[before.len() as int] == last);
                }
            }
        } else {
            assert(after == before);
        }
    }
}

/// Stopping the service gives back the handle of every tunnel, each once.
pub proof fn law_stop_service_gives_handles_back<H>(
    state: RuntimeModel<H>,
    saved: Seq<Seq<char>>,
    order: Seq<Seq<char>>,
)
    requires
        order.to_set() == state.tunnels.dom(),
    ensures
        each_once(
            state.tunnels,
            turns(state, saved + order),
            runtime::handles_stopped(state, saved + order),
        ),
{
    let ids = saved + order;
    lemma_turns(state, ids);
    assert(turns(state, ids).to_set() =~= state.tunnels.dom()) by {
        assert forall|id: Seq<char>| turns(state, ids).to_set().contains(id)
            == state.tunnels.dom().contains(id) by {
            if state.tunnels.dom().contains(id) {
                assert(order.to_set().contains(id));
                assert(order.contains(id));
                assert(ids[saved.len() + order.index_of(id)] == id);
                assert(ids.contains(id));
            }
            assert(turns(state, ids).contains(id) <==> ids.contains(id)
                && state.tunnels.dom().contains(id));
        }
    }
}

/// Ending everything leaves no profile with a tunnel, wanted or waiting for a
/// login, and there is nothing left to end.
pub proof fn law_terminate_clears<H>(state: RuntimeModel<H>, id: Seq<char>)
    ensures
        ({
            let after = runtime::terminated(state);
            &&& runtime::handle_of(after, id) is None
            &&& !after.desired.contains(id)
            &&& !after.needs_auth.contains(id)
            &&& runtime::terminated(after) == after
        }),
{
}

proof fn lemma_last_with(configs: Seq<ConfigModel>, id: Seq<char>)
    ensures
        match runtime::last_with(configs, id) {
            Some(config) => config.id == id && configs.contains(config),
            None => forall|i: int| 0 <= i < configs.len() ==> (#[trigger] configs[i]).id != id,
        },
    decreases configs.len(),
{
    if configs.len() > 0 {
        let fewer = configs.drop_last();
        lemma_last_with(fewer, id);
        if configs.last().id == id {
            assert(configs[configs.len() - 1] == configs.last());
        } else {
            match runtime::last_with(fewer, id) {
                Some(config) => {
                    assert(configs[fewer.index_of(config)] == config);
                },
                None => {
                    assert forall|i: int| 0 <= i < configs.len() implies (
                    #[trigger] configs[i]).id != id by {
                        if i < fewer.len() {
                            assert(fewer[i] == configs[i]);
                        }
                    }
                },
            }
        }
    }
}

proof fn lemma_reconnecting(order: Seq<Seq<char>>, configs: Seq<ConfigModel>)
    ensures
        forall|config: ConfigModel| #[trigger]
            runtime::reconnecting(order, configs).contains(config) <==> order.contains(config.id)
                && runtime::last_with(configs, config.id) == Some(config) && runtime::reconnects(
                config,
            ),
    decreases order.len(),
{
    let picked = runtime::reconnecting(order, configs);
    if order.len() > 0 {
        let fewer = order.drop_last();
        let before = runtime::reconnecting(fewer, configs);
        lemma_reconnecting(fewer, configs);
        lemma_last_with(configs, order.last());
        assert forall|config: ConfigModel| #[trigger] picked.contains(config) <==> order.contains(
            config.id,
        ) && runtime::last_with(configs, config.id) == Some(config) && runtime::reconnects(
            config,
        ) by {
            assert(order.contains(config.id) <==> fewer.contains(config.id) || config.id
                == order.last()) by {
                if order.contains(config.id) {
                    let i = order.index_of(config.id);
                    if i < fewer.len() {
                        assert(fewer[i] == config.id);
                    }
                }
                if fewer.contains(config.id) {
                    assert(order[fewer.index_of(config.id)] == config.id);
                }
                assert(order[order.len() - 1] == order.last());
            }
            if picked.contains(config) {
                let i = picked.index_of(config);
                if i < before.len() {
                    assert(before[i] == config);
                    assert(before.contains(config));
                }
            }
            if before.contains(config) {
                assert(picked[before.index_of(config)] == config);
            }
            if picked.len() > before.len() {
                assert(picked[before.len() as int] == picked.last());
            }
        }
    }
}

/// A tunnel is started again by itself only if its profile is saved and wanted,
/// asks for that and takes no second factor; and every such one is. Where several
/// saved profiles share an id, the last one counts.
pub proof fn law_reconnects_what_is_wanted(
    desired: Set<Seq<char>>,
    order: Seq<Seq<char>>,
    configs: Seq<ConfigModel>,
    config: ConfigModel,
)
    requires
        order.to_set() == desired,
    ensures
        runtime::reconnecting(order, configs).contains(config) <==> {
            &&& desired.contains(config.id)
            &&& runtime::last_with(configs, config.id) == Some(config)
            &&& config.auth_profile != AuthProfile::Mfa
            &&& config.auto_reconnect
        },
        runtime::reconnecting(order, configs).contains(config) ==> configs.contains(config),
{
    lemma_reconnecting(order, configs);
    lemma_last_with(configs, config.id);
    assert(order.to_set().contains(config.id) == order.contains(config.id));
}

/// Each client of a local or dynamic tunnel counts once, and no client of a remote
/// tunnel does.
pub proof fn law_remote_clients_do_not_count(
    tunnels: Seq<(TunnelType, u64)>,
    kind: TunnelType,
    clients: u64,
)
    ensures
        runtime::local_clients(tunnels.push((kind, clients))) == runtime::local_clients(tunnels)
            + (if kind == TunnelType::Remote {
            0
        } else {
            clients as nat
        }),
        runtime::local_clients(tunnels.filter(|t: (TunnelType, u64)| t.0 != TunnelType::Remote))
            == runtime::local_clients(tunnels),
{
    assert(tunnels.push((kind, clients)).drop_last() == tunnels);
    lemma_remote_left_out(tunnels);
}

proof fn lemma_remote_left_out(tunnels: Seq<(TunnelType, u64)>)
    ensures
        runtime::local_clients(tunnels.filter(|t: (TunnelType, u64)| t.0 != TunnelType::Remote))
            == runtime::local_clients(tunnels),
    decreases tunnels.len(),
{
    let near = |t: (TunnelType, u64)| t.0 != TunnelType::Remote;
    reveal(Seq::filter);
    if tunnels.len() > 0 {
        let fewer = tunnels.drop_last();
        lemma_remote_left_out(fewer);
        if near(tunnels.last()) {
            assert(tunnels.filter(near) == fewer.filter(near).push(tunnels.last()));
            assert(tunnels.filter(near).drop_last() == fewer.filter(near));
        } else {
            assert(tunnels.filter(near) == fewer.filter(near));
        }
    }
}

/// Between two looks, the bytes forwarded are those that were added to the count.
pub proof fn law_traffic_between_looks(earlier: u128, later: u128, before: u64, added: u64)
    requires
        earlier < later,
        before + added <= u64::MAX,
    ensures
        runtime::traffic_since(
            Some(runtime::TrafficSnapshot { captured_at: earlier, bytes_total: before }),
            later,
            (before + added) as u64,
        ) == Some(
            runtime::TrafficDelta { bytes: added, nanoseconds: (later - earlier) as u128 },
        ),
{
}

/// A look at a tunnel finds it running exactly where it was started and its worker
/// runs, ended where it was started and its worker does not, and stopped where it
/// was not started. One that has ended is dropped, and only then is its handle given
/// back; nothing else changes.
pub proof fn law_look_at_a_tunnel<H>(state: RuntimeModel<H>, id: Seq<char>, running: bool)
    ensures
        ({
            let held = state.tunnels.dom().contains(id);
            let seen = runtime::seen_status(state, id, running);
            let after = runtime::observed(state, id, running);
            let handle = runtime::ended_handle(state, id, running);
            &&& seen == TunnelStatus::Running <==> held && running
            &&& seen == TunnelStatus::Exited <==> held && !running
            &&& seen == TunnelStatus::Stopped <==> !held
            &&& runtime::is_up(state, id, running) <==> held && running
            &&& after.tunnels.dom().contains(id) <==> held && running
            &&& held && running ==> after.tunnels[id] == state.tunnels[id]
            &&& held && !running ==> handle == Some(state.tunnels[id])
            &&& !held || running ==> handle is None
            &&& after.desired == state.desired
            &&& after.needs_auth == state.needs_auth
            &&& after.traffic == state.traffic
        }),
{
}

/// The handle of a tunnel is the one with which it was started.
pub proof fn law_handles<H>(state: RuntimeModel<H>, id: Seq<char>)
    ensures
        state.tunnels.dom().contains(id) ==> runtime::handle_of(state, id) == Some(
            state.tunnels[id],
        ),
        !state.tunnels.dom().contains(id) ==> runtime::handle_of(state, id) is None,
{
}

/// A profile is shown as running exactly where its tunnel is up, as needing a login
/// where it is not and waits for one or has just ended with a second factor, as
/// ended where it has just ended otherwise, and else as stopped. It waits for a login
/// from the moment on in which it is shown so.
pub proof fn law_shown_statuses<H>(state: RuntimeModel<H>, config: ConfigModel, running: bool)
    ensures
        ({
            let held = state.tunnels.dom().contains(config.id);
            let up = held && running;
            let waits = state.needs_auth.contains(config.id) || (held && config.auth_profile
                == AuthProfile::Mfa);
            let status = runtime::shown_status(state, config, running);
            let after = runtime::shown(state, config, running);
            &&& status == TunnelStatus::Running <==> up
            &&& status == TunnelStatus::NeedsAuth <==> !up && waits
            &&& status == TunnelStatus::Exited <==> held && !up && !waits
            &&& status == TunnelStatus::Stopped <==> !held && !waits
            &&& after.needs_auth.contains(config.id) <==> state.needs_auth.contains(config.id) || (
            !up && waits)
            &&& after.tunnels.dom().contains(config.id) <==> up
            &&& after.desired == state.desired
            &&& after.traffic == state.traffic
        }),
{
}

/// A profile that is asked for is wanted, one that has come up is held and waits for
/// no login, and neither changes anything else of it.
pub proof fn law_asking_and_starting<H>(state: RuntimeModel<H>, id: Seq<char>, handle: H)
    ensures
        ({
            let asked = runtime::wanted(state, id);
            let started = runtime::up(state, id, handle);
            &&& asked.desired.contains(id)
            &&& asked.tunnels == state.tunnels
            &&& asked.needs_auth == state.needs_auth
            &&& asked.traffic == state.traffic
            &&& started.tunnels.dom().contains(id)
            &&& started.tunnels[id] == handle
            &&& !started.needs_auth.contains(id)
            &&& started.desired == state.desired
            &&& started.traffic == state.traffic
        }),
{
}

/// A profile that could not be started is no longer wanted; it waits for a login
/// where its failure speaks of authentication and not of a host key mismatch, and
/// else only if it did before. Its tunnel, if there is one, stays.
pub proof fn law_giving_up<H>(state: RuntimeModel<H>, config: ConfigModel, error: Seq<char>)
    ensures
        ({
            let after = runtime::given_up(state, config, error);
            let mismatch = service::speaks_of(error, "host key mismatch"@);
            &&& !after.desired.contains(config.id)
            &&& after.tunnels == state.tunnels
            &&& after.traffic == state.traffic
            &&& service::speaks_of(error, "auth"@) && !mismatch ==> after.needs_auth.contains(
                config.id,
            )
            &&& mismatch ==> after.needs_auth == state.needs_auth
            &&& after.needs_auth.contains(config.id) <==> state.needs_auth.contains(config.id)
                || service::failure_kind(config.auth_profile, error) == ServiceFailureKind::Auth
        }),
{
    service::law_failure_kinds(config.auth_profile, error);
}

/// A profile that was stopped is neither held nor wanted, and waits for no login;
/// the look at the traffic stays.
pub proof fn law_stopping<H>(state: RuntimeModel<H>, id: Seq<char>)
    ensures
        ({
            let after = runtime::stopped(state, id);
            &&& !after.tunnels.dom().contains(id)
            &&& !after.desired.contains(id)
            &&& !after.needs_auth.contains(id)
            &&& after.traffic == state.traffic
        }),
{
}

/// A service is idle exactly where it holds nothing, wants nothing and waits for no
/// login.
pub proof fn law_idle<H>(state: RuntimeModel<H>)
    ensures
        runtime::terminated(state) == state <==> state.tunnels == Map::<Seq<char>, H>::empty()
            && state.desired == Set::<Seq<char>>::empty() && state.needs_auth == Set::<
            Seq<char>,
        >::empty(),
        runtime::terminated(state).traffic == state.traffic,
{
}

/// The bytes of all tunnels are the sum of what each has forwarded: one tunnel
/// counts for itself, and two groups of tunnels for what they count together.
pub proof fn law_bytes_add_up(count: u64, some: Seq<u64>, others: Seq<u64>)
    ensures
        runtime::total(seq![count]) == count,
        runtime::total(Seq::<u64>::empty()) == 0,
        runtime::total(some + others) == runtime::total(some) + runtime::total(others),
    decreases others.len(),
{
    assert(seq![count].drop_last() =~= Seq::<u64>::empty());
    assert(runtime::total(Seq::<u64>::empty()) == 0);
    if others.len() == 0 {
        assert(some + others =~= some);
    } else {
        law_bytes_add_up(count, some, others.drop_last());
        assert((some + others).drop_last() =~= some + others.drop_last());
    }
}

/// The clients of a tunnel on this machine all count, those of a remote tunnel do
/// not, and the clients of two groups of tunnels are counted together.
pub proof fn law_clients_add_up(
    clients: u64,
    some: Seq<(TunnelType, u64)>,
    others: Seq<(TunnelType, u64)>,
)
    ensures
        runtime::local_clients(seq![(TunnelType::Local, clients)]) == clients,
        runtime::local_clients(seq![(TunnelType::Dynamic, clients)]) == clients,
        runtime::local_clients(seq![(TunnelType::Remote, clients)]) == 0,
        runtime::local_clients(Seq::<(TunnelType, u64)>::empty()) == 0,
        runtime::local_clients(some + others) == runtime::local_clients(some)
            + runtime::local_clients(others),
    decreases others.len(),
{
    let none = Seq::<(TunnelType, u64)>::empty();
    assert(runtime::local_clients(none) == 0);
    assert(seq![(TunnelType::Local, clients)].drop_last() =~= none);
    assert(seq![(TunnelType::Dynamic, clients)].drop_last() =~= none);
    assert(seq![(TunnelType::Remote, clients)].drop_last() =~= none);
    if others.len() == 0 {
        assert(some + others =~= some);
    } else {
        law_clients_add_up(clients, some, others.drop_last());
        assert((some + others).drop_last() =~= some + others.drop_last());
    }
}

/// The first look at the traffic, and one for which no time has gone by, tell
/// nothing; a count that has gone down tells of no bytes. What is told is what was
/// added to the count and the time gone by.
pub proof fn law_looks_at_traffic(last: runtime::TrafficSnapshot, now: u128, bytes_total: u64)
    ensures
        runtime::traffic_since(None, now, bytes_total) is None,
        ({
            let since = runtime::traffic_since(Some(last), now, bytes_total);
            &&& since is Some <==> last.captured_at < now
            &&& since matches Some(delta) ==> {
                &&& last.captured_at + delta.nanoseconds == now
                &&& bytes_total >= last.bytes_total ==> last.bytes_total + delta.bytes
                    == bytes_total
                &&& bytes_total < last.bytes_total ==> delta.bytes == 0
            }
        }),
{
}

/// Of the saved profiles that share an id the last one counts.
pub proof fn law_last_profile_counts(configs: Seq<ConfigModel>, i: int)
    requires
        0 <= i < configs.len(),
        forall|j: int| i < j < configs.len() ==> (#[trigger] configs[j]).id != configs[i].id,
    ensures
        runtime::last_with(configs, configs[i].id) == Some(configs[i]),
    decreases configs.len(),
{
    let n = configs.len() - 1;
    if i < n {
        let fewer = configs.drop_last();
        assert(configs[n].id != configs[i].id);
        assert forall|j: int| i < j < fewer.len() implies (#[trigger] fewer[j]).id
            != fewer[i].id by {
            assert(fewer[j] == configs[j]);
        }
        law_last_profile_counts(fewer, i);
    }
}

/// Each tunnel whose worker has ended is dropped, in its order, and none whose
/// worker runs.
pub proof fn law_ended_tunnels_are_dropped(
    order: Seq<Seq<char>>,
    running: Seq<bool>,
    id: Seq<char>,
    runs: bool,
)
    requires
        order.len() == running.len(),
    ensures
        runtime::ended_ids(order.push(id), running.push(runs)) == runtime::ended_ids(
            order,
            running,
        ) + (if runs {
            Seq::empty()
        } else {
            seq![id]
        }),
        runtime::ended_ids(Seq::<Seq<char>>::empty(), Seq::<bool>::empty()).len() == 0,
{
    assert(order.push(id).drop_last() =~= order);
    assert(running.push(runs).drop_last() =~= running);
}

/// Wanted profiles are started again in the order in which they are wanted, each
/// once for each place that it has there.
pub proof fn law_reconnecting_in_order(
    order: Seq<Seq<char>>,
    configs: Seq<ConfigModel>,
    id: Seq<char>,
)
    ensures
        ({
            let before = runtime::reconnecting(order, configs);
            let after = runtime::reconnecting(order.push(id), configs);
            match runtime::last_with(configs, id) {
                Some(config) => if config.auto_reconnect && config.auth_profile
                    == AuthProfile::Normal {
                    after == before.push(config)
                } else {
                    after == before
                },
                None => after == before,
            }
        }),
        runtime::reconnecting(Seq::<Seq<char>>::empty(), configs).len() == 0,
{
    assert(order.push(id).drop_last() =~= order);
}

/// Stopping a row of profiles is stopping each of them: none is held, wanted or
/// waits for a login any more, and every other profile is as it was.
pub proof fn law_stopping_a_row<H>(state: RuntimeModel<H>, ids: Seq<Seq<char>>, id: Seq<char>)
    ensures
        ({
            let after = runtime::all_stopped(state, ids);
            &&& ids.contains(id) ==> !after.tunnels.dom().contains(id) && !after.desired.contains(
                id,
            ) && !after.needs_auth.contains(id)
            &&& !ids.contains(id) ==> alike(after, state, id)
            &&& after.traffic == state.traffic
        }),
{
    lemma_all_stopped(state, ids);
    assert(ids.to_set().contains(id) == ids.contains(id));
}

/// The ids of a row of profiles are theirs, place by place.
pub proof fn law_ids_of_profiles(configs: Seq<SshConfig>, i: int)
    requires
        0 <= i < configs.len(),
    ensures
        runtime::config_ids(configs).len() == configs.len(),
        runtime::config_ids(configs)[i] == configs[i].id@,
{
}

/// A tunnel that is dropped is gone, and with it nothing else.
pub proof fn law_dropping<H>(state: RuntimeModel<H>, id: Seq<char>, other: Seq<char>)
    ensures
        ({
            let after = runtime::dropped(state, id);
            &&& !after.tunnels.dom().contains(id)
            &&& other != id ==> runtime::handle_of(after, other) == runtime::handle_of(
                state,
                other,
            )
            &&& after.desired == state.desired
            &&& after.needs_auth == state.needs_auth
            &&& after.traffic == state.traffic
        }),
{
}

/// A tunnel goes on to start once its port is free or does not matter, and fails with
/// the reason otherwise.
pub proof fn law_tested_port(config: SshConfig, bound: Result<(), String>, action: StartAction)
    requires
        call_ensures(port_tested, (&config, bound), action),
    ensures
        action is Claim <==> config.tunnel_type == TunnelType::Remote || bound is Ok,
        action is Fail <==> config.tunnel_type != TunnelType::Remote && bound is Err,
{
}

/// The profiles to start again are saved ones that are wanted, ask for it and take no
/// second factor.
pub proof fn law_picked_profiles<H>(
    state: RuntimeState<H>,
    connections: Vec<SshConfig>,
    picked: Vec<SshConfig>,
    i: int,
)
    requires
        call_ensures(RuntimeState::<H>::reconcile_runtime, (&state, &connections), picked),
        0 <= i < picked@.len(),
    ensures
        state@.desired.contains(picked@[i].id@),
        picked@[i].auto_reconnect,
        picked@[i].auth_profile == AuthProfile::Normal,
        exists|j: int|
            0 <= j < connections@.len() && (#[trigger] connections@[j])@ == picked@[i]@,
{
    let saved = config::models(connections@);
    let order = state.desired_order();
    let config = picked@[i]@;
    assert(config::models(picked@)[i] == config);
    assert(runtime::reconnecting(order, saved).contains(config));
    law_reconnects_what_is_wanted(state@.desired, order, saved, config);
    let j = saved.index_of(config);
    assert(saved[j] == connections@[j]@);
}

/// Asking for a tunnel refuses a profile that is not valid and changes nothing; a
/// valid one is wanted from then on. A tunnel that is up is said to be; otherwise its
/// port is tested if it listens on this machine, and it goes on at once if it listens
/// on the server.
pub proof fn law_asking_for_a_tunnel<H>(
    state: &mut RuntimeState<H>,
    config: SshConfig,
    running: bool,
    begun: (StartAction, Option<H>),
)
    requires
        call_ensures(RuntimeState::<H>::begin_start, (state, &config, running), begun),
    ensures
        ({
            let valid = config::config_error(config@) is None;
            let held = old(state)@.tunnels.dom().contains(config.id@);
            let remote = config.tunnel_type == TunnelType::Remote;
            &&& !valid ==> begun.0 is Fail && final(state)@ == old(state)@
            &&& valid ==> final(state)@.desired == old(state)@.desired.insert(config.id@)
            &&& begun.0 is Up <==> valid && held && running
            &&& begun.0 is Claim <==> valid && !(held && running) && remote
            &&& begun.0 is TestPort <==> valid && !(held && running) && !remote
            &&& begun.0 is Fail <==> !valid
            &&& begun.1 is Some <==> valid && held && !running
            &&& begun.1 is Some ==> begun.1 == Some(old(state)@.tunnels[config.id@])
            &&& valid ==> (final(state)@.tunnels.dom().contains(config.id@) <==> held && running)
            &&& final(state)@.needs_auth == old(state)@.needs_auth
            &&& final(state)@.traffic == old(state)@.traffic
        }),
{
}

/// A tunnel that is to be started is connected unless it is up by now.
pub proof fn law_claiming_a_tunnel<H>(
    state: &mut RuntimeState<H>,
    id: &str,
    running: bool,
    claimed: (StartAction, Option<H>),
)
    requires
        call_ensures(RuntimeState::<H>::claim_start, (state, id, running), claimed),
    ensures
        claimed.0 is Up <==> old(state)@.tunnels.dom().contains(id@) && running,
        claimed.0 is Connect <==> !(old(state)@.tunnels.dom().contains(id@) && running),
        final(state)@.desired == old(state)@.desired,
        final(state)@.needs_auth == old(state)@.needs_auth,
{
}

/// A start that has succeeded leaves the tunnel up and held by its handle; one that
/// has failed leaves it unwanted and gives the reason on.
pub proof fn law_finishing_a_start<H>(
    state: &mut RuntimeState<H>,
    config: SshConfig,
    result: Result<H, String>,
    action: StartAction,
)
    requires
        call_ensures(RuntimeState::<H>::finish_start, (state, &config, result), action),
    ensures
        match result {
            Ok(handle) => {
                &&& action is Up
                &&& final(state)@.tunnels == old(state)@.tunnels.insert(config.id@, handle)
                &&& final(state)@.desired == old(state)@.desired
                &&& !final(state)@.needs_auth.contains(config.id@)
            },
            Err(error) => {
                &&& action is Fail && action->Fail_0@ == error@
                &&& final(state)@.tunnels == old(state)@.tunnels
                &&& !final(state)@.desired.contains(config.id@)
            },
        },
{
}

/// The status of a tunnel is found and shown by one rule, and what has ended is given
/// back.
pub proof fn law_asking_for_a_status<H>(
    state: &mut RuntimeState<H>,
    config: SshConfig,
    running: bool,
    seen: (TunnelStatus, Option<H>),
)
    requires
        call_ensures(RuntimeState::<H>::tunnel_status, (state, &config, running), seen),
    ensures
        ({
            let held = old(state)@.tunnels.dom().contains(config.id@);
            let waits = old(state)@.needs_auth.contains(config.id@);
            &&& seen.0 == TunnelStatus::Running <==> held && running
            &&& seen.0 == TunnelStatus::NeedsAuth <==> !(held && running) && (waits || (held
                && config.auth_profile == AuthProfile::Mfa))
            &&& seen.1 is Some <==> held && !running
            &&& seen.1 is Some ==> seen.1 == Some(old(state)@.tunnels[config.id@])
            &&& final(state)@.tunnels.dom().contains(config.id@) <==> held && running
        }),
{
}

/// Stopping a tunnel gives its handle back and leaves the profile neither held nor
/// wanted, without a login to wait for.
pub proof fn law_stopping_a_tunnel<H>(state: &mut RuntimeState<H>, id: &str, handle: Option<H>)
    requires
        call_ensures(RuntimeState::<H>::stop_tunnel_by_id, (state, id), handle),
    ensures
        handle is Some <==> old(state)@.tunnels.dom().contains(id@),
        handle is Some ==> handle == Some(old(state)@.tunnels[id@]),
        final(state)@.tunnels == old(state)@.tunnels.remove(id@),
        final(state)@.desired == old(state)@.desired.remove(id@),
        final(state)@.needs_auth == old(state)@.needs_auth.remove(id@),
{
}

/// Stopping the service leaves no tunnel, and no saved profile that is wanted or waits
/// for a login.
pub proof fn law_stopping_the_service<H>(
    state: &mut RuntimeState<H>,
    connections: Vec<SshConfig>,
    handles: Vec<H>,
    i: int,
)
    requires
        call_ensures(RuntimeState::<H>::stop_service, (state, &connections), handles),
        0 <= i < connections@.len(),
    ensures
        final(state)@.tunnels == Map::<Seq<char>, H>::empty(),
        !final(state)@.desired.contains(connections@[i].id@),
        !final(state)@.needs_auth.contains(connections@[i].id@),
{
    let saved = runtime::config_ids(connections@);
    let ids = saved + old(state).tunnel_order();
    assert(ids[i] == connections@[i].id@);
    law_stopping_a_row(old(state)@, ids, connections@[i].id@);
}

/// Ending everything gives every handle back and leaves nothing.
pub proof fn law_ending_everything<H>(state: &mut RuntimeState<H>, handles: Vec<H>)
    requires
        call_ensures(RuntimeState::<H>::terminate_managed_children, (state,), handles),
    ensures
        handles@.len() == old(state).tunnel_order().len(),
        final(state)@.tunnels == Map::<Seq<char>, H>::empty(),
        final(state)@.desired == Set::<Seq<char>>::empty(),
        final(state)@.needs_auth == Set::<Seq<char>>::empty(),
{
}

/// Two looks at the traffic, one after the other, tell the bytes added between them
/// and the time gone by.
pub proof fn law_two_looks_at_traffic<H>(
    state: &mut RuntimeState<H>,
    later: &mut RuntimeState<H>,
    times: (u128, u128),
    counts: (u64, u64),
    since: (Option<TrafficDelta>, Option<TrafficDelta>),
)
    requires
        call_ensures(
            RuntimeState::<H>::sample_tunnel_traffic,
            (state, times.0, counts.0),
            since.0,
        ),
        call_ensures(
            RuntimeState::<H>::sample_tunnel_traffic,
            (later, times.1, counts.1),
            since.1,
        ),
        *old(later) == *final(state),
        times.0 < times.1,
        counts.0 <= counts.1,
    ensures
        since.1 == Some(
            TrafficDelta {
                bytes: (counts.1 - counts.0) as u64,
                nanoseconds: (times.1 - times.0) as u128,
            },
        ),
{
}

/// A look at all tunnels keeps exactly those whose worker runs, names them, and gives
/// the handles of the others back.
pub proof fn law_active_tunnels<H>(
    state: &mut RuntimeState<H>,
    running: Vec<bool>,
    active: (Vec<String>, Vec<H>),
    i: int,
)
    requires
        call_ensures(RuntimeState::<H>::active_tunnel_ids, (state, &running), active),
        old(state).wf(),
        running@.len() == old(state).tunnel_order().len(),
        0 <= i < running@.len(),
    ensures
        final(state)@.tunnels.dom().contains(old(state).tunnel_order()[i]) <==> running@[i],
        !running@[i] ==> active.1@.contains(old(state)@.tunnels[old(state).tunnel_order()[i]]),
        ids::names(active.0@).to_set() == final(state)@.tunnels.dom(),
        final(state)@.desired == old(state)@.desired,
        final(state)@.needs_auth == old(state)@.needs_auth,
{
    let order = old(state).tunnel_order();
    let id = order[i];
    let ended = runtime::ended_ids(order, running@);
    old(state).lemma_tunnel_order();
    final(state).lemma_tunnel_order();
    runtime::lemma_ended_ids(order, running@);
    assert(order.to_set().contains(id));
    assert(ended.to_set().contains(id) == ended.contains(id));
    assert(ended.contains(id) <==> !running@[i]) by {
        if ended.contains(id) {
            let j = choose|j: int| 0 <= j < order.len() && #[trigger] order[j] == id && !running@[j];
            assert(j == i);
        }
        if !running@[i] {
            assert(order[i] == id && !running@[i]);
        }
    }
    if !running@[i] {
        let k = ended.index_of(id);
        assert(active.1@[k] == old(state)@.tunnels[id]);
    }
}

} // verus!
