//! What holds of tunnel profiles and of the saved list as a whole.
use vstd::prelude::*;
use crate::config;
use crate::config::{
    plan_save, plan_save_with_id, validate_config, AppState, AuthMethod, AuthProfile, ConfigModel,
    ConnectionInput, SavePlan, SshConfig, TunnelType,
};
use crate::text;
use crate::text_laws;

verus! {

proof fn lemma_trim_start_ends(s: Seq<char>)
    ensures
        text::trim_start(s).len() > 0 ==> !text::is_whitespace(text::trim_start(s)[0]),
    decreases s.len(),
{
    if s.len() > 0 && text::is_whitespace(s[0]) {
        lemma_trim_start_ends(s.skip(1));
    }
}

proof fn lemma_trim_end_ends(s: Seq<char>)
    ensures
        text::trim_end(s).len() > 0 ==> !text::is_whitespace(text::trim_end(s).last()),
        text::trim_end(s).len() <= s.len(),
        text::trim_end(s) == s.take(text::trim_end(s).len() as int),
    decreases s.len(),
{
    if s.len() > 0 && text::is_whitespace(s.last()) {
        lemma_trim_end_ends(s.drop_last());
        let n = text::trim_end(s).len() as int;
        assert(s.drop_last().take(n) == s.take(n));
    } else {
        assert(s.take(s.len() as int) == s);
    }
}

/// Trimming a trimmed text changes nothing.
pub proof fn law_trim_twice(s: Seq<char>)
    ensures
        text::trim(text::trim(s)) == text::trim(s),
{
    let start = text::trim_start(s);
    lemma_trim_start_ends(s);
    lemma_trim_end_ends(start);
    let t = text::trim(s);
    if t.len() > 0 {
        assert(t[0] == start[0]);
    }
}

/// A profile that needs a second factor never reconnects by itself, whatever was
/// entered.
pub proof fn law_mfa_never_reconnects(input: ConnectionInput, id: Seq<char>)
    requires
        input.auth_profile == AuthProfile::Mfa,
    ensures
        !config::configured(input, id).auto_reconnect,
{
}

/// Entering again what a profile holds gives that profile.
pub proof fn law_profile_is_stable(input: ConnectionInput, id: Seq<char>, again: ConnectionInput)
    requires
        ({
            let config = config::configured(input, id);
            &&& again.name@ == config.name
            &&& again.host@ == config.host
            &&& again.port == config.port
            &&& again.username@ == config.username
            &&& again.auth_method == config.auth_method
            &&& config::opt_text(again.key_path) == config.key_path
            &&& again.tunnel_type == config.tunnel_type
            &&& again.local_port == config.local_port
            &&& config::opt_text(again.remote_host) == config.remote_host
            &&& again.remote_port == config.remote_port
            &&& again.auth_profile == config.auth_profile
            &&& again.auto_reconnect == config.auto_reconnect
        }),
    ensures
        config::configured(again, id) == config::configured(input, id),
{
    law_trim_twice(input.name@);
    law_trim_twice(input.host@);
    law_trim_twice(input.username@);
    if input.key_path is Some {
        law_trim_twice(input.key_path->0@);
    }
    if input.remote_host is Some {
        law_trim_twice(input.remote_host->0@);
    }
}

proof fn lemma_found_at(configs: Seq<ConfigModel>, id: Seq<char>, i: int)
    requires
        0 <= i < configs.len(),
        configs[i].id == id,
        forall|j: int| 0 <= j < i ==> (#[trigger] configs[j]).id != id,
    ensures
        config::found(configs, id) == Some(configs[i]),
{
    config::lemma_position(configs, id, 0);
}

proof fn lemma_not_found(configs: Seq<ConfigModel>, id: Seq<char>)
    requires
        forall|j: int| 0 <= j < configs.len() ==> (#[trigger] configs[j]).id != id,
    ensures
        config::found(configs, id) is None,
{
    config::lemma_position(configs, id, 0);
}

/// A saved profile is the one that is found under its id, and what is found
/// under any other id stays what it was.
pub proof fn law_saved_is_found(configs: Seq<ConfigModel>, config: ConfigModel, other: Seq<char>)
    ensures
        config::found(config::saved(configs, config), config.id) == Some(config),
        other != config.id ==> config::found(config::saved(configs, config), other)
            == config::found(configs, other),
{
    let after = config::saved(configs, config);
    config::lemma_position(configs, config.id, 0);
    config::lemma_position(configs, other, 0);
    match config::position_from(configs, config.id, 0) {
        Some(i) => {
            assert(after[i] == config);
            lemma_found_at(after, config.id, i);
        },
        None => {
            let i = configs.len() as int;
            assert(after[i] == config);
            assert forall|j: int| 0 <= j < i implies (#[trigger] after[j]).id != config.id by {
                assert(after[j] == configs[j]);
            }
            lemma_found_at(after, config.id, i);
        },
    }
    if other != config.id {
        match config::position_from(configs, other, 0) {
            Some(k) => {
                assert(after[k] == configs[k]);
                assert forall|j: int| 0 <= j < k implies (#[trigger] after[j]).id != other by {
                    assert(configs[j].id != other);
                }
                lemma_found_at(after, other, k);
            },
            None => {
                assert forall|j: int| 0 <= j < after.len() implies (#[trigger] after[j]).id
                    != other by {
                    if j < configs.len() {
                        assert(configs[j].id != other);
                    }
                }
                lemma_not_found(after, other);
            },
        }
    }
}

/// No two profiles share an id.
pub open spec fn unique_ids(configs: Seq<ConfigModel>) -> bool {
    forall|i: int, j: int|
        0 <= i < j < configs.len() ==> (#[trigger] configs[i]).id != (#[trigger] configs[j]).id
}

/// Saving keeps ids apart, and adds at most one profile.
pub proof fn law_save_keeps_ids_unique(configs: Seq<ConfigModel>, config: ConfigModel)
    requires
        unique_ids(configs),
    ensures
        unique_ids(config::saved(configs, config)),
        config::saved(configs, config).len() == configs.len() + (if config::found(
            configs,
            config.id,
        ) is Some {
            0int
        } else {
            1int
        }),
{
    config::lemma_position(configs, config.id, 0);
}

/// Saving a profile twice is saving it once.
pub proof fn law_save_twice(configs: Seq<ConfigModel>, config: ConfigModel)
    ensures
        config::saved(config::saved(configs, config), config) == config::saved(configs, config),
{
    let after = config::saved(configs, config);
    config::lemma_position(configs, config.id, 0);
    config::lemma_position(after, config.id, 0);
    match config::position_from(configs, config.id, 0) {
        Some(i) => {
            assert(after[i].id == config.id);
            let k = config::position_from(after, config.id, 0)->0;
            if k < i {
                assert(after[k] == configs[k]);
            }
            assert(after.update(i, config) == after);
        },
        None => {
            let i = configs.len() as int;
            assert(after[i].id == config.id);
            let k = config::position_from(after, config.id, 0)->0;
            if k < i {
                assert(after[k] == configs[k]);
            }
            assert(after.update(i, config) == after);
        },
    }
}

proof fn lemma_without_step(configs: Seq<ConfigModel>, id: Seq<char>)
    requires
        configs.len() > 0,
    ensures
        config::without(configs, id) == if configs.last().id != id {
            config::without(configs.drop_last(), id).push(configs.last())
        } else {
            config::without(configs.drop_last(), id)
        },
{
    reveal(Seq::filter);
}

proof fn lemma_found_push(configs: Seq<ConfigModel>, config: ConfigModel, id: Seq<char>)
    ensures
        config::found(configs.push(config), id) == (if config::found(configs, id) is Some {
            config::found(configs, id)
        } else if config.id == id {
            Some(config)
        } else {
            None
        }),
{
    let all = configs.push(config);
    config::lemma_position(configs, id, 0);
    match config::position_from(configs, id, 0) {
        Some(i) => {
            assert(all[i] == configs[i]);
            assert forall|j: int| 0 <= j < i implies (#[trigger] all[j]).id != id by {
                assert(all[j] == configs[j]);
            }
            lemma_found_at(all, id, i);
        },
        None => {
            assert forall|j: int| 0 <= j < configs.len() implies (#[trigger] all[j]).id != id by {
                assert(all[j] == configs[j]);
            }
            if config.id == id {
                lemma_found_at(all, id, configs.len() as int);
            } else {
                lemma_not_found(all, id);
            }
        },
    }
}

/// Under the id of a removed profile nothing is found, and what is found under
/// any other id stays what it was.
pub proof fn law_removed_is_gone(configs: Seq<ConfigModel>, id: Seq<char>, other: Seq<char>)
    ensures
        config::found(config::without(configs, id), id) is None,
        other != id ==> config::found(config::without(configs, id), other) == config::found(
            configs,
            other,
        ),
    decreases configs.len(),
{
    if configs.len() == 0 {
        reveal(Seq::filter);
    } else {
        let rest = configs.drop_last();
        law_removed_is_gone(rest, id, other);
        lemma_without_step(configs, id);
        assert(configs == rest.push(configs.last()));
        lemma_found_push(rest, configs.last(), other);
        lemma_found_push(config::without(rest, id), configs.last(), id);
        lemma_found_push(config::without(rest, id), configs.last(), other);
    }
}

/// A profile holds no secret: what it is does not depend on the password or the
/// passphrase that were entered with it.
pub proof fn law_profile_holds_no_secret(
    input: ConnectionInput,
    id: Seq<char>,
    password: Option<String>,
    key_passphrase: Option<String>,
)
    ensures
        config::configured(ConnectionInput { password, key_passphrase, ..input }, id)
            == config::configured(input, id),
{
}

/// A text in which something besides whitespace stands.
pub open spec fn has_ink(s: Seq<char>) -> bool {
    exists|i: int| 0 <= i < s.len() && !text::is_whitespace(#[trigger] s[i])
}

proof fn lemma_ink(s: Seq<char>)
    ensures
        has_ink(s) <==> text::trim(s).len() > 0,
{
    text_laws::law_blank_is_all_whitespace(s);
}

/// A profile holds what was entered: every number and choice as it is, and every
/// text without the whitespace around it. It reconnects by itself exactly where
/// that was asked for and no second factor is needed.
pub proof fn law_profile_holds_what_was_entered(input: ConnectionInput, id: Seq<char>)
    ensures
        ({
            let config = config::configured(input, id);
            &&& config.id == id
            &&& config.port == input.port
            &&& config.auth_method == input.auth_method
            &&& config.tunnel_type == input.tunnel_type
            &&& config.local_port == input.local_port
            &&& config.remote_port == input.remote_port
            &&& config.auth_profile == input.auth_profile
            &&& config.auto_reconnect <==> input.auto_reconnect && input.auth_profile
                == AuthProfile::Normal
            &&& config.name == text::trim(input.name@)
            &&& config.host == text::trim(input.host@)
            &&& config.username == text::trim(input.username@)
        }),
{
}

/// A key path or a remote host is there exactly where one was entered that is not
/// all whitespace, and it is that text without the whitespace around it.
pub proof fn law_blank_entries_are_left_out(input: ConnectionInput, id: Seq<char>)
    ensures
        ({
            let config = config::configured(input, id);
            &&& match input.key_path {
                Some(path) => if has_ink(path@) {
                    config.key_path == Some(text::trim(path@))
                } else {
                    config.key_path is None
                },
                None => config.key_path is None,
            }
            &&& match input.remote_host {
                Some(host) => if has_ink(host@) {
                    config.remote_host == Some(text::trim(host@))
                } else {
                    config.remote_host is None
                },
                None => config.remote_host is None,
            }
        }),
{
    if input.key_path is Some {
        lemma_ink(input.key_path->0@);
    }
    if input.remote_host is Some {
        lemma_ink(input.remote_host->0@);
    }
}

/// A secret that was entered is kept as it is, whitespace and all; one that is
/// empty counts as none.
pub proof fn law_entered_secret(secret: Seq<char>)
    ensures
        secret.len() > 0 ==> config::entered(Some(secret)) == Some(secret),
        secret.len() == 0 ==> config::entered(Some(secret)) is None,
        config::entered(None) is None,
{
}

/// What is saved is what was entered: of every plan that comes of an input, the
/// profile has the input's numbers and choices, under the input's id if it gives
/// one, and the secrets to keep are those of the input.
pub proof fn law_saved_profile_is_what_was_entered(input: ConnectionInput, plan: SavePlan)
    requires
        call_ensures(plan_save, (&input,), Ok::<SavePlan, String>(plan)),
    ensures
        plan.config.port == input.port,
        plan.config.auth_method == input.auth_method,
        plan.config.tunnel_type == input.tunnel_type,
        plan.config.local_port == input.local_port,
        plan.config.remote_port == input.remote_port,
        plan.config.auth_profile == input.auth_profile,
        plan.config.auto_reconnect <==> input.auto_reconnect && input.auth_profile
            == AuthProfile::Normal,
        plan.config.name@ == text::trim(input.name@),
        plan.config.host@ == text::trim(input.host@),
        plan.config.username@ == text::trim(input.username@),
        input.id matches Some(id) ==> plan.config.id@ == id@,
        plan.password is Some <==> input.password is Some && input.password->0@.len() > 0,
        plan.password is Some ==> plan.password->0@ == input.password->0@,
        plan.key_passphrase is Some <==> input.key_passphrase is Some
            && input.key_passphrase->0@.len() > 0,
        plan.key_passphrase is Some ==> plan.key_passphrase->0@ == input.key_passphrase->0@,
{
}

/// The same of a plan under a given id.
pub proof fn law_profile_saved_under_an_id(input: ConnectionInput, id: String, plan: SavePlan)
    requires
        call_ensures(plan_save_with_id, (&input, id), Ok::<SavePlan, String>(plan)),
    ensures
        plan.config.id@ == id@,
        plan.config.port == input.port,
        plan.config.auth_method == input.auth_method,
        plan.config.tunnel_type == input.tunnel_type,
        plan.config.local_port == input.local_port,
        plan.config.remote_port == input.remote_port,
        plan.config.auth_profile == input.auth_profile,
{
}

/// A profile is valid exactly where its name, its host and its user name hold more
/// than whitespace, no port is zero, a key login has the path of a key, and a
/// tunnel that is not dynamic has a remote host and a remote port.
pub proof fn law_valid_profiles(config: ConfigModel)
    ensures
        config::config_error(config) is None <==> {
            &&& has_ink(config.name)
            &&& has_ink(config.host)
            &&& has_ink(config.username)
            &&& config.port > 0
            &&& config.local_port > 0
            &&& config.auth_method == AuthMethod::Key ==> config.key_path is Some && has_ink(
                config.key_path->0,
            )
            &&& config.tunnel_type == TunnelType::Dynamic || {
                &&& config.remote_host is Some
                &&& has_ink(config.remote_host->0)
                &&& config.remote_port is Some
                &&& config.remote_port->0 > 0
            }
        },
{
    lemma_ink(config.name);
    lemma_ink(config.host);
    lemma_ink(config.username);
    if config.key_path is Some {
        lemma_ink(config.key_path->0);
    }
    if config.remote_host is Some {
        lemma_ink(config.remote_host->0);
    }
}

/// The first thing that is wrong with a profile is the one that is told: a blank
/// name before a blank host, that before a blank user name, then the ports, the
/// key, the remote host and the remote port.
pub proof fn law_first_fault_is_told(config: ConfigModel)
    ensures
        ({
            let told = config::config_error(config);
            let named = has_ink(config.name);
            let placed = named && has_ink(config.host);
            let owned = placed && has_ink(config.username);
            let numbered = owned && config.port > 0 && config.local_port > 0;
            let keyed = numbered && (config.auth_method == AuthMethod::Key ==> config.key_path
                is Some && has_ink(config.key_path->0));
            let led = config.remote_host is Some && has_ink(config.remote_host->0);
            let fixed = config.tunnel_type != TunnelType::Dynamic;
            &&& !named ==> told == Some("Connection name is required."@)
            &&& named && !placed ==> told == Some("SSH host is required."@)
            &&& placed && !owned ==> told == Some("Username is required."@)
            &&& owned && !numbered ==> told == Some("Ports must be between 1 and 65535."@)
            &&& numbered && !keyed ==> told == Some(
                "Key path is required for key authentication."@,
            )
            &&& keyed && fixed && !led ==> told == Some(
                "Remote host is required for local and remote tunnels."@,
            )
            &&& keyed && fixed && led && (config.remote_port is None || config.remote_port->0 == 0)
                ==> told == Some("Remote port is required for local and remote tunnels."@)
        }),
{
    lemma_ink(config.name);
    lemma_ink(config.host);
    lemma_ink(config.username);
    if config.key_path is Some {
        lemma_ink(config.key_path->0);
    }
    if config.remote_host is Some {
        lemma_ink(config.remote_host->0);
    }
}

/// Saving a profile changes no other place of the list: the profiles keep their
/// order, and a new one comes last.
pub proof fn law_saving_keeps_places(configs: Seq<ConfigModel>, config: ConfigModel, i: int)
    requires
        0 <= i < configs.len(),
    ensures
        config::saved(configs, config).len() >= configs.len(),
        configs[i].id != config.id ==> config::saved(configs, config)[i] == configs[i],
        config::saved(configs, config)[i].id == configs[i].id,
        (forall|j: int| 0 <= j < configs.len() ==> (#[trigger] configs[j]).id != config.id)
            ==> config::saved(configs, config) == configs.push(config),
{
    config::lemma_position(configs, config.id, 0);
}

/// Of the profiles that share an id the first is found.
pub proof fn law_first_profile_is_found(configs: Seq<ConfigModel>, i: int)
    requires
        0 <= i < configs.len(),
        forall|j: int| 0 <= j < i ==> (#[trigger] configs[j]).id != configs[i].id,
    ensures
        config::found(configs, configs[i].id) == Some(configs[i]),
{
    lemma_found_at(configs, configs[i].id, i);
}

/// Removing takes out exactly the profiles of the id, and two that stay keep their
/// order.
pub proof fn law_removing_keeps_order(
    first: Seq<ConfigModel>,
    config: ConfigModel,
    last: Seq<ConfigModel>,
    id: Seq<char>,
)
    ensures
        config::without(first + seq![config] + last, id) == config::without(first, id) + (
        if config.id == id {
            Seq::empty()
        } else {
            seq![config]
        }) + config::without(last, id),
{
    let keep = |config: ConfigModel| config.id != id;
    let one = seq![config];
    Seq::filter_distributes_over_add(first + one, last, keep);
    Seq::filter_distributes_over_add(first, one, keep);
    reveal(Seq::filter);
    assert(one.drop_last() =~= Seq::<ConfigModel>::empty());
    assert(one.drop_last().filter(keep) =~= Seq::<ConfigModel>::empty());
    assert(one.filter(keep) =~= (if config.id == id {
        Seq::empty()
    } else {
        one
    }));
}

/// A profile that is asked for by its id is the first of the list with that id, as
/// it is; where there is none, that is the answer.
pub proof fn law_profile_is_found_as_it_is(
    state: AppState,
    id: &str,
    result: Result<SshConfig, String>,
)
    requires
        call_ensures(AppState::find_config, (&state, id), result),
    ensures
        match result {
            Ok(config) => exists|i: int|
                {
                    &&& 0 <= i < state.connections@.len()
                    &&& (#[trigger] state.connections@[i])@ == config@
                    &&& state.connections@[i].id@ == id@
                    &&& forall|j: int| 0 <= j < i ==> (#[trigger] state.connections@[j]).id@ != id@
                },
            Err(message) => {
                &&& message@ == "Connection not found."@
                &&& forall|j: int|
                    0 <= j < state.connections@.len() ==> (#[trigger] state.connections@[j]).id@
                        != id@
            },
        },
{
    let all = state@;
    config::lemma_position(all, id@, 0);
    assert forall|j: int| 0 <= j < all.len() implies (#[trigger] state.connections@[j]).id@
        == all[j].id by {
        assert(all[j] == state.connections@[j]@);
    }
    match config::position_from(all, id@, 0) {
        Some(i) => {
            assert(all[i] == state.connections@[i]@);
            assert forall|j: int| 0 <= j < i implies (#[trigger] state.connections@[j]).id@
                != id@ by {
                assert(all[j] == state.connections@[j]@);
            }
        },
        None => {
            assert forall|j: int| 0 <= j < state.connections@.len() implies (
            #[trigger] state.connections@[j]).id@ != id@ by {
                assert(all[j] == state.connections@[j]@);
            }
        },
    }
}

/// A profile passes exactly where its own fields are all right.
pub proof fn law_validation(config: SshConfig, result: Result<(), String>)
    requires
        call_ensures(validate_config, (&config,), result),
    ensures
        result is Ok <==> {
            &&& has_ink(config.name@)
            &&& has_ink(config.host@)
            &&& has_ink(config.username@)
            &&& config.port > 0
            &&& config.local_port > 0
            &&& config.auth_method == AuthMethod::Key ==> config.key_path is Some && has_ink(
                config.key_path->0@,
            )
            &&& config.tunnel_type == TunnelType::Dynamic || {
                &&& config.remote_host is Some
                &&& has_ink(config.remote_host->0@)
                &&& config.remote_port is Some
                &&& config.remote_port->0 > 0
            }
        },
{
    law_valid_profiles(config@);
}

/// A copy of a profile is that profile, field by field.
pub proof fn law_copied_profile(config: SshConfig, copy: SshConfig)
    requires
        call_ensures(SshConfig::clone, (&config,), copy),
    ensures
        copy.id@ == config.id@,
        copy.name@ == config.name@,
        copy.host@ == config.host@,
        copy.port == config.port,
        copy.username@ == config.username@,
        copy.auth_method == config.auth_method,
        copy.key_path is Some == config.key_path is Some,
        copy.key_path is Some ==> copy.key_path->0@ == config.key_path->0@,
        copy.tunnel_type == config.tunnel_type,
        copy.local_port == config.local_port,
        copy.remote_host is Some == config.remote_host is Some,
        copy.remote_host is Some ==> copy.remote_host->0@ == config.remote_host->0@,
        copy.remote_port == config.remote_port,
        copy.auth_profile == config.auth_profile,
        copy.auto_reconnect == config.auto_reconnect,
{
    assert(copy@ == config@);
    assert(copy@.key_path == config@.key_path);
    assert(copy@.remote_host == config@.remote_host);
}

/// A profile that was saved is found under its id as it was saved.
pub proof fn law_saving_and_finding(
    state: &mut AppState,
    config: SshConfig,
    later: AppState,
    id: &str,
    result: Result<SshConfig, String>,
)
    requires
        call_ensures(AppState::save_config, (state, config), ()),
        later == *final(state),
        id@ == config.id@,
        call_ensures(AppState::find_config, (&later, id), result),
    ensures
        result is Ok && result->Ok_0@ == config@,
        final(state)@.len() <= old(state)@.len() + 1,
{
    config::lemma_position(old(state)@, config.id@, 0);
    law_saved_is_found(old(state)@, config@, id@);
}

/// A profile that was removed is not found any more.
pub proof fn law_removing_and_finding(
    state: &mut AppState,
    id: &str,
    later: AppState,
    result: Result<SshConfig, String>,
)
    requires
        call_ensures(AppState::remove_config, (state, id), ()),
        later == *final(state),
        call_ensures(AppState::find_config, (&later, id), result),
    ensures
        result is Err,
{
    law_removed_is_gone(old(state)@, id@, id@);
}

} // verus!
