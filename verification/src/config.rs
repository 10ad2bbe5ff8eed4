//! Tunnel profiles: what one holds, when it is valid, and the saved list.
use vstd::prelude::*;
use crate::text;
use crate::text::{blank, same_str, trimmed_str};

verus! {

broadcast use vstd::string::group_string_axioms;

/// Which way a tunnel forwards.
#[derive(Debug, Clone, Copy, PartialEq, Eq, Structural)]
pub enum TunnelType {
    Local,
    Remote,
    Dynamic,
}

/// How a session authenticates itself.
#[derive(Debug, Clone, Copy, PartialEq, Eq, Structural)]
pub enum AuthMethod {
    Password,
    Key,
}

/// Whether logging in takes a second factor.
#[derive(Debug, Clone, Copy, PartialEq, Eq, Structural)]
pub enum AuthProfile {
    Normal,
    Mfa,
}

/// A tunnel profile.
#[derive(Debug)]
pub struct SshConfig {
    pub id: String,
    pub name: String,
    pub host: String,
    pub port: u16,
    pub username: String,
    pub auth_method: AuthMethod,
    pub key_path: Option<String>,
    pub tunnel_type: TunnelType,
    pub local_port: u16,
    pub remote_host: Option<String>,
    pub remote_port: Option<u16>,
    pub auth_profile: AuthProfile,
    pub auto_reconnect: bool,
}

/// The content of a [`SshConfig`].
pub struct ConfigModel {
    pub id: Seq<char>,
    pub name: Seq<char>,
    pub host: Seq<char>,
    pub port: u16,
    pub username: Seq<char>,
    pub auth_method: AuthMethod,
    pub key_path: Option<Seq<char>>,
    pub tunnel_type: TunnelType,
    pub local_port: u16,
    pub remote_host: Option<Seq<char>>,
    pub remote_port: Option<u16>,
    pub auth_profile: AuthProfile,
    pub auto_reconnect: bool,
}

/// The text of an optional string.
pub open spec fn opt_text(s: Option<String>) -> Option<Seq<char>> {
    match s {
        Some(s) => Some(s@),
        None => None,
    }
}

impl View for SshConfig {
    type V = ConfigModel;

    open spec fn view(&self) -> ConfigModel {
        ConfigModel {
            id: self.id@,
            name: self.name@,
            host: self.host@,
            port: self.port,
            username: self.username@,
            auth_method: self.auth_method,
            key_path: opt_text(self.key_path),
            tunnel_type: self.tunnel_type,
            local_port: self.local_port,
            remote_host: opt_text(self.remote_host),
            remote_port: self.remote_port,
            auth_profile: self.auth_profile,
            auto_reconnect: self.auto_reconnect,
        }
    }
}

fn copy_opt(s: &Option<String>) -> (t: Option<String>)
    ensures
        opt_text(t) == opt_text(*s),
{
    match s {
        Some(s) => Some(s.clone()),
        None => None,
    }
}

impl Clone for SshConfig {
    fn clone(&self) -> (copy: SshConfig)
        ensures
            copy@ == self@,
    {
        SshConfig {
            id: self.id.clone(),
            name: self.name.clone(),
            host: self.host.clone(),
            port: self.port,
            username: self.username.clone(),
            auth_method: self.auth_method,
            key_path: copy_opt(&self.key_path),
            tunnel_type: self.tunnel_type,
            local_port: self.local_port,
            remote_host: copy_opt(&self.remote_host),
            remote_port: self.remote_port,
            auth_profile: self.auth_profile,
            auto_reconnect: self.auto_reconnect,
        }
    }
}

/// What a user enters to make or change a profile.
#[derive(Debug)]
pub struct ConnectionInput {
    pub id: Option<String>,
    pub name: String,
    pub host: String,
    pub port: u16,
    pub username: String,
    pub auth_method: AuthMethod,
    pub password: Option<String>,
    pub key_path: Option<String>,
    pub key_passphrase: Option<String>,
    pub tunnel_type: TunnelType,
    pub local_port: u16,
    pub remote_host: Option<String>,
    pub remote_port: Option<u16>,
    pub auth_profile: AuthProfile,
    pub auto_reconnect: bool,
}

impl Clone for ConnectionInput {
    fn clone(&self) -> (copy: ConnectionInput)
        ensures
            opt_text(copy.id) == opt_text(self.id),
            copy.name@ == self.name@,
            copy.host@ == self.host@,
            copy.port == self.port,
            copy.username@ == self.username@,
            copy.auth_method == self.auth_method,
            opt_text(copy.password) == opt_text(self.password),
            opt_text(copy.key_path) == opt_text(self.key_path),
            opt_text(copy.key_passphrase) == opt_text(self.key_passphrase),
            copy.tunnel_type == self.tunnel_type,
            copy.local_port == self.local_port,
            opt_text(copy.remote_host) == opt_text(self.remote_host),
            copy.remote_port == self.remote_port,
            copy.auth_profile == self.auth_profile,
            copy.auto_reconnect == self.auto_reconnect,
    {
        ConnectionInput {
            id: copy_opt(&self.id),
            name: self.name.clone(),
            host: self.host.clone(),
            port: self.port,
            username: self.username.clone(),
            auth_method: self.auth_method,
            password: copy_opt(&self.password),
            key_path: copy_opt(&self.key_path),
            key_passphrase: copy_opt(&self.key_passphrase),
            tunnel_type: self.tunnel_type,
            local_port: self.local_port,
            remote_host: copy_opt(&self.remote_host),
            remote_port: self.remote_port,
            auth_profile: self.auth_profile,
            auto_reconnect: self.auto_reconnect,
        }
    }
}

/// A text that is missing or holds nothing but whitespace.
pub open spec fn blank_opt(s: Option<Seq<char>>) -> bool {
    match s {
        Some(s) => text::trim(s).len() == 0,
        None => true,
    }
}

/// The first thing that is wrong with a profile, if anything is.
pub open spec fn config_error(config: ConfigModel) -> Option<Seq<char>> {
    if text::trim(config.name).len() == 0 {
        Some("Connection name is required."@)
    } else if text::trim(config.host).len() == 0 {
        Some("SSH host is required."@)
    } else if text::trim(config.username).len() == 0 {
        Some("Username is required."@)
    } else if config.port == 0 || config.local_port == 0 {
        Some("Ports must be between 1 and 65535."@)
    } else if config.auth_method == AuthMethod::Key && blank_opt(config.key_path) {
        Some("Key path is required for key authentication."@)
    } else if config.tunnel_type != TunnelType::Dynamic && blank_opt(config.remote_host) {
        Some("Remote host is required for local and remote tunnels."@)
    } else if config.tunnel_type != TunnelType::Dynamic && (config.remote_port is None
        || config.remote_port == Some(0u16)) {
        Some("Remote port is required for local and remote tunnels."@)
    } else {
        None
    }
}

fn blank_option(s: &Option<String>) -> (yes: bool)
    ensures
        yes == blank_opt(opt_text(*s)),
{
    match s {
        Some(s) => blank(s.as_str()),
        None => true,
    }
}

/// Whether a profile can be used; if not, what is wrong with it.
pub fn validate_config(config: &SshConfig) -> (result: Result<(), String>)
    ensures
        match result {
            Ok(()) => config_error(config@) is None,
            Err(message) => config_error(config@) == Some(message@),
        },
{
    if blank(config.name.as_str()) {
        return Err("Connection name is required.".to_string());
    }
    if blank(config.host.as_str()) {
        return Err("SSH host is required.".to_string());
    }
    if blank(config.username.as_str()) {
        return Err("Username is required.".to_string());
    }
    if config.port == 0 || config.local_port == 0 {
        return Err("Ports must be between 1 and 65535.".to_string());
    }
    if config.auth_method == AuthMethod::Key && blank_option(&config.key_path) {
        return Err("Key path is required for key authentication.".to_string());
    }
    if config.tunnel_type != TunnelType::Dynamic {
        if blank_option(&config.remote_host) {
            return Err("Remote host is required for local and remote tunnels.".to_string());
        }
        let remote_port: u16 = match config.remote_port {
            Some(port) => port,
            None => 0,
        };
        if remote_port == 0 {
            return Err("Remote port is required for local and remote tunnels.".to_string());
        }
    }
    Ok(())
}

/// The trimmed text, unless nothing is left of it.
pub open spec fn trimmed_opt(s: Option<Seq<char>>) -> Option<Seq<char>> {
    if blank_opt(s) {
        None
    } else {
        Some(text::trim(s->0))
    }
}

/// The profile that an input describes, under a given id: texts are trimmed, an
/// empty key path or remote host is none, and a profile with a second factor
/// never reconnects by itself.
pub open spec fn configured(input: ConnectionInput, id: Seq<char>) -> ConfigModel {
    ConfigModel {
        id,
        name: text::trim(input.name@),
        host: text::trim(input.host@),
        port: input.port,
        username: text::trim(input.username@),
        auth_method: input.auth_method,
        key_path: trimmed_opt(opt_text(input.key_path)),
        tunnel_type: input.tunnel_type,
        local_port: input.local_port,
        remote_host: trimmed_opt(opt_text(input.remote_host)),
        remote_port: input.remote_port,
        auth_profile: input.auth_profile,
        auto_reconnect: input.auto_reconnect && input.auth_profile != AuthProfile::Mfa,
    }
}

fn trimmed_option(s: &Option<String>) -> (t: Option<String>)
    ensures
        opt_text(t) == trimmed_opt(opt_text(*s)),
{
    match s {
        Some(s) => {
            let t = trimmed_str(s.as_str());
            if t.as_str().is_empty() {
                None
            } else {
                Some(t)
            }
        },
        None => None,
    }
}

/// A random UUID in its usual form: thirty-two lower case hexadecimal digits in
/// groups of eight, four, four, four and twelve, of which the thirteenth is the
/// version 4 and the seventeenth marks the variant.
pub open spec fn is_random_uuid(s: Seq<char>) -> bool {
    &&& s.len() == 36
    &&& forall|i: int|
        0 <= i < 36 ==> if i == 8 || i == 13 || i == 18 || i == 23 {
            #[trigger] s[i] == '-'
        } else {
            '0' <= s[i] && s[i] <= '9' || 'a' <= s[i] && s[i] <= 'f'
        }
    &&& s[14] == '4'
    &&& s[19] == '8' || s[19] == '9' || s[19] == 'a' || s[19] == 'b'
}

/// `uuid::Uuid::new_v4`, written out with `to_string`: a version 4 UUID in
/// hyphenated lower case form. The other digits come from the system's source of
/// random numbers, so nothing is said of them; without such a source the call
/// panics.
#[verifier::external_body]
fn new_id() -> (id: String)
    ensures
        is_random_uuid(id@),
{
    uuid::Uuid::new_v4().to_string()
}

/// The profile that an input describes: under the id that it gives, or else
/// under a new random one.
pub fn to_config(input: &ConnectionInput) -> (config: SshConfig)
    ensures
        match input.id {
            Some(id) => config@ == configured(*input, id@),
            None => is_random_uuid(config.id@) && config@ == configured(*input, config.id@),
        },
        config.port == input.port,
        config.auth_method == input.auth_method,
        config.tunnel_type == input.tunnel_type,
        config.local_port == input.local_port,
        config.remote_port == input.remote_port,
        config.auth_profile == input.auth_profile,
{
    let id = match &input.id {
        Some(id) => id.clone(),
        None => new_id(),
    };
    to_config_with_id(input, id)
}

/// The profile that an input describes, under a given id.
pub fn to_config_with_id(input: &ConnectionInput, id: String) -> (config: SshConfig)
    ensures
        config@ == configured(*input, id@),
        config.id@ == id@,
        config.port == input.port,
        config.auth_method == input.auth_method,
        config.tunnel_type == input.tunnel_type,
        config.local_port == input.local_port,
        config.remote_port == input.remote_port,
        config.auth_profile == input.auth_profile,
        config.auto_reconnect <==> input.auto_reconnect && input.auth_profile
            == AuthProfile::Normal,
{
    let is_mfa = input.auth_profile == AuthProfile::Mfa;
    SshConfig {
        id,
        name: trimmed_str(input.name.as_str()),
        host: trimmed_str(input.host.as_str()),
        port: input.port,
        username: trimmed_str(input.username.as_str()),
        auth_method: input.auth_method,
        key_path: trimmed_option(&input.key_path),
        tunnel_type: input.tunnel_type,
        local_port: input.local_port,
        remote_host: trimmed_option(&input.remote_host),
        remote_port: input.remote_port,
        auth_profile: input.auth_profile,
        auto_reconnect: input.auto_reconnect && !is_mfa,
    }
}

/// The saved profiles.
#[derive(Debug)]
pub struct AppState {
    pub connections: Vec<SshConfig>,
}

/// The contents of a row of profiles.
pub open spec fn models(configs: Seq<SshConfig>) -> Seq<ConfigModel> {
    configs.map_values(|config: SshConfig| config@)
}

impl View for AppState {
    type V = Seq<ConfigModel>;

    open spec fn view(&self) -> Seq<ConfigModel> {
        models(self.connections@)
    }
}

impl Clone for AppState {
    fn clone(&self) -> (copy: AppState)
        ensures
            copy@ == self@,
    {
        let mut connections: Vec<SshConfig> = Vec::new();
        let mut i: usize = 0;
        while i < self.connections.len()
            invariant
                i <= self.connections@.len(),
                models(connections@) == self@.take(i as int),
            decreases self.connections.len() - i,
        {
            let ghost before = connections@;
            let config = self.connections[i].clone();
            connections.push(config);
            assert(models(connections@) == models(before).push(config@));
            assert(self@.take(i + 1) == self@.take(i as int).push(self@[i as int]));
            i = i + 1;
        }
        assert(self@.take(i as int) == self@);
        AppState { connections }
    }
}

impl Default for AppState {
    /// No profiles.
    fn default() -> (state: AppState)
        ensures
            state@ == Seq::<ConfigModel>::empty(),
    {
        AppState { connections: Vec::new() }
    }
}

/// The first profile with an id, counted from `from` on.
pub open spec fn position_from(configs: Seq<ConfigModel>, id: Seq<char>, from: int) -> Option<int>
    decreases configs.len() - from,
{
    if from >= configs.len() {
        None
    } else if configs[from].id == id {
        Some(from)
    } else {
        position_from(configs, id, from + 1)
    }
}

/// The first profile with an id.
pub open spec fn found(configs: Seq<ConfigModel>, id: Seq<char>) -> Option<ConfigModel> {
    match position_from(configs, id, 0) {
        Some(i) => Some(configs[i]),
        None => None,
    }
}

/// The list after a profile was saved: it takes the place of the first one with
/// its id, or comes last.
pub open spec fn saved(configs: Seq<ConfigModel>, config: ConfigModel) -> Seq<ConfigModel> {
    match position_from(configs, config.id, 0) {
        Some(i) => configs.update(i, config),
        None => configs.push(config),
    }
}

/// The list without the profiles of an id.
pub open spec fn without(configs: Seq<ConfigModel>, id: Seq<char>) -> Seq<ConfigModel> {
    configs.filter(|config: ConfigModel| config.id != id)
}

pub proof fn lemma_position(configs: Seq<ConfigModel>, id: Seq<char>, from: int)
    requires
        0 <= from,
    ensures
        match position_from(configs, id, from) {
            Some(i) => from <= i < configs.len() && configs[i].id == id && (forall|j: int|
                from <= j < i ==> (#[trigger] configs[j]).id != id),
            None => forall|j: int| from <= j < configs.len() ==> (#[trigger] configs[j]).id != id,
        },
    decreases configs.len() - from,
{
    if from < configs.len() && configs[from].id != id {
        lemma_position(configs, id, from + 1);
    }
}

impl AppState {
    fn position(&self, id: &str) -> (at: Option<usize>)
        ensures
            match at {
                Some(i) => position_from(self@, id@, 0) == Some(i as int) && i < self@.len(),
                None => position_from(self@, id@, 0) is None,
            },
    {
        let mut i: usize = 0;
        while i < self.connections.len()
            invariant
                i <= self@.len(),
                self@.len() == self.connections@.len(),
                position_from(self@, id@, i as int) == position_from(self@, id@, 0),
            decreases self.connections.len() - i,
        {
            if same_str(self.connections[i].id.as_str(), id) {
                return Some(i);
            }
            i = i + 1;
        }
        None
    }

    /// The first profile with an id.
    pub fn find_config(&self, id: &str) -> (result: Result<SshConfig, String>)
        ensures
            match result {
                Ok(config) => found(self@, id@) == Some(config@),
                Err(message) => found(self@, id@) is None && message@ == "Connection not found."@,
            },
    {
        match self.position(id) {
            Some(i) => Ok(self.connections[i].clone()),
            None => Err("Connection not found.".to_string()),
        }
    }

    /// Saves a profile: over the first one with its id, or as the last one.
    pub fn save_config(&mut self, config: SshConfig)
        ensures
            final(self)@ == saved(old(self)@, config@),
    {
        match self.position(config.id.as_str()) {
            Some(i) => {
                self.connections.set(i, config);
                assert(self@ == old(self)@.update(i as int, config@));
            },
            None => {
                self.connections.push(config);
                assert(self@ == old(self)@.push(config@));
            },
        }
    }

    /// Removes every profile with an id; the others keep their order.
    pub fn remove_config(&mut self, id: &str)
        ensures
            final(self)@ == without(old(self)@, id@),
    {
        let ghost keep = |config: ConfigModel| config.id != id@;
        let ghost all = self@;
        let mut retained: Vec<SshConfig> = Vec::new();
        let mut i: usize = 0;
        while i < self.connections.len()
            invariant
                i <= self@.len(),
                self@ == all,
                all.len() == self.connections@.len(),
                keep == (|config: ConfigModel| config.id != id@),
                models(retained@) == all.take(i as int).filter(keep),
            decreases self.connections.len() - i,
        {
            let ghost before = retained@;
            proof {
                reveal(Seq::filter);
                assert(all.take(i + 1).drop_last() == all.take(i as int));
                assert(all.take(i + 1).last() == self.connections@[i as int]@);
            }
            if !same_str(self.connections[i].id.as_str(), id) {
                let config = self.connections[i].clone();
                retained.push(config);
                assert(models(retained@) == models(before).push(config@));
            }
            i = i + 1;
        }
        assert(all.take(all.len() as int) == all);
        self.connections = retained;
    }
}

/// What saving an input comes to.
#[derive(Debug)]
pub struct SavePlan {
    /// The profile to save.
    pub config: SshConfig,
    /// A password to keep, if one was entered.
    pub password: Option<String>,
    /// A key passphrase to keep, if one was entered.
    pub key_passphrase: Option<String>,
}

/// A secret that was entered: an empty one counts as none.
pub open spec fn entered(s: Option<Seq<char>>) -> Option<Seq<char>> {
    match s {
        Some(s) => if s.len() > 0 {
            Some(s)
        } else {
            None
        },
        None => None,
    }
}

fn entered_secret(s: &Option<String>) -> (t: Option<String>)
    ensures
        opt_text(t) == entered(opt_text(*s)),
{
    match s {
        Some(s) => if s.as_str().is_empty() {
            None
        } else {
            Some(s.clone())
        },
        None => None,
    }
}

/// What saving an input under a given id comes to, or what is wrong with it.
pub fn plan_save_with_id(input: &ConnectionInput, id: String) -> (plan: Result<SavePlan, String>)
    ensures
        match plan {
            Ok(plan) => {
                &&& plan.config@ == configured(*input, id@)
                &&& plan.config.port == input.port
                &&& plan.config.auth_method == input.auth_method
                &&& plan.config.tunnel_type == input.tunnel_type
                &&& plan.config.local_port == input.local_port
                &&& plan.config.remote_port == input.remote_port
                &&& plan.config.auth_profile == input.auth_profile
                &&& config_error(plan.config@) is None
                &&& opt_text(plan.password) == entered(opt_text(input.password))
                &&& opt_text(plan.key_passphrase) == entered(opt_text(input.key_passphrase))
            },
            Err(message) => config_error(configured(*input, id@)) == Some(message@),
        },
{
    let config = to_config_with_id(input, id);
    match validate_config(&config) {
        Ok(()) => Ok(
            SavePlan {
                config,
                password: entered_secret(&input.password),
                key_passphrase: entered_secret(&input.key_passphrase),
            },
        ),
        Err(message) => Err(message),
    }
}

/// What saving an input comes to, or what is wrong with it: under the id that it
/// gives, or else under a new random one.
pub fn plan_save(input: &ConnectionInput) -> (plan: Result<SavePlan, String>)
    ensures
        match plan {
            Ok(plan) => {
                &&& plan.config@ == configured(*input, plan.config.id@)
                &&& plan.config.port == input.port
                &&& plan.config.auth_method == input.auth_method
                &&& plan.config.tunnel_type == input.tunnel_type
                &&& plan.config.local_port == input.local_port
                &&& plan.config.remote_port == input.remote_port
                &&& plan.config.auth_profile == input.auth_profile
                &&& match input.id {
                    Some(id) => plan.config.id@ == id@,
                    None => is_random_uuid(plan.config.id@),
                }
                &&& config_error(plan.config@) is None
                &&& opt_text(plan.password) == entered(opt_text(input.password))
                &&& opt_text(plan.key_passphrase) == entered(opt_text(input.key_passphrase))
            },
            Err(message) => forall|id: Seq<char>|
                #![trigger configured(*input, id)]
                config_error(configured(*input, id)) == Some(message@),
        },
{
    let config = to_config(input);
    let id = config.id.clone();
    let plan = plan_save_with_id(input, id);
    proof {
        assert forall|other: Seq<char>| #[trigger]
            config_error(configured(*input, other)) == config_error(configured(*input, id@)) by {
        }
    }
    plan
}

} // verus!
