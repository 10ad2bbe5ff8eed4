//! What the service reports: the status of tunnels, and why one did not start.
use vstd::prelude::*;
use crate::config::{AuthProfile, SshConfig};
use crate::text;
use crate::text::{holds_text, lowered, to_chars};
use crate::text_laws;

verus! {

/// How a tunnel is doing.
#[derive(Debug, Clone, Copy, PartialEq, Eq, Structural)]
pub enum TunnelStatus {
    /// It was not started.
    Stopped,
    /// It is up.
    Running,
    /// It was up and has ended by itself.
    Exited,
    /// It is down until its user logs in again.
    NeedsAuth,
}

/// A profile and the status of its tunnel.
#[derive(Debug)]
pub struct ConnectionView {
    pub config: SshConfig,
    pub status: TunnelStatus,
}

impl Clone for ConnectionView {
    fn clone(&self) -> (copy: ConnectionView)
        ensures
            copy.config@ == self.config@,
            copy.status == self.status,
    {
        ConnectionView { config: self.config.clone(), status: self.status }
    }
}

/// What kind of thing kept a tunnel from starting.
#[derive(Debug, Clone, Copy, PartialEq, Eq, Structural)]
pub enum ServiceFailureKind {
    HostKeyMismatch,
    Auth,
    Other,
}

/// A profile whose tunnel did not start, and why.
#[derive(Debug)]
pub struct ServiceFailure {
    pub id: String,
    pub name: String,
    pub error: String,
    pub kind: ServiceFailureKind,
}

/// The content of a [`ServiceFailure`].
pub struct FailureModel {
    pub id: Seq<char>,
    pub name: Seq<char>,
    pub error: Seq<char>,
    pub kind: ServiceFailureKind,
}

impl View for ServiceFailure {
    type V = FailureModel;

    open spec fn view(&self) -> FailureModel {
        FailureModel { id: self.id@, name: self.name@, error: self.error@, kind: self.kind }
    }
}

impl Clone for ServiceFailure {
    fn clone(&self) -> (copy: ServiceFailure)
        ensures
            copy@ == self@,
    {
        ServiceFailure {
            id: self.id.clone(),
            name: self.name.clone(),
            error: self.error.clone(),
            kind: self.kind,
        }
    }
}

/// What came of starting or stopping the whole service.
#[derive(Debug)]
pub struct ServiceReport {
    /// The number of saved profiles.
    pub total: usize,
    /// The number of tunnels that are up.
    pub running: usize,
    /// The number of profiles whose tunnel was up once it had been asked for.
    pub started: usize,
    /// The number of clients that are connected on this machine.
    pub clients: usize,
    /// The profiles whose tunnel did not start.
    pub failed: Vec<ServiceFailure>,
}

impl Clone for ServiceReport {
    fn clone(&self) -> (copy: ServiceReport)
        ensures
            copy.total == self.total,
            copy.running == self.running,
            copy.started == self.started,
            copy.clients == self.clients,
            failures(copy.failed@) == failures(self.failed@),
    {
        let mut failed: Vec<ServiceFailure> = Vec::new();
        let ghost all = failures(self.failed@);
        let mut i: usize = 0;
        while i < self.failed.len()
            invariant
                i <= self.failed@.len(),
                all == failures(self.failed@),
                failures(failed@) == all.take(i as int),
            decreases self.failed.len() - i,
        {
            let ghost before = failed@;
            let failure = self.failed[i].clone();
            failed.push(failure);
            assert(failures(failed@) == failures(before).push(failure@));
            assert(all.take(i + 1) == all.take(i as int).push(all[i as int]));
            i = i + 1;
        }
        assert(all.take(i as int) == all);
        ServiceReport {
            total: self.total,
            running: self.running,
            started: self.started,
            clients: self.clients,
            failed,
        }
    }
}

/// How the service is doing.
#[derive(Debug, Clone, Copy)]
pub struct ServiceStatus {
    /// The number of saved profiles.
    pub total: usize,
    /// The number of tunnels that are up.
    pub running: usize,
    /// The number of clients that are connected on this machine.
    pub clients: usize,
    /// Bytes forwarded per second since the last look.
    pub traffic_bytes_per_second: u64,
    /// Bytes forwarded by the tunnels that are up.
    pub traffic_bytes_total: u64,
}

/// Whether a message, whatever the case of its letters, holds a text in small
/// letters.
pub open spec fn mentions(error: Seq<char>, word: Seq<char>) -> bool {
    text::contains(text::lower(error), word)
}

/// What kind of failure a message tells of, for a profile with or without a
/// second factor. A host key mismatch comes before everything else.
pub open spec fn failure_kind(profile: AuthProfile, error: Seq<char>) -> ServiceFailureKind {
    if mentions(error, "host key mismatch"@) {
        ServiceFailureKind::HostKeyMismatch
    } else if mentions(error, "auth"@) || mentions(error, "password"@) || mentions(
        error,
        "passphrase"@,
    ) || mentions(error, "publickey"@) || (profile == AuthProfile::Mfa && mentions(
        error,
        "keyboard"@,
    )) {
        ServiceFailureKind::Auth
    } else {
        ServiceFailureKind::Other
    }
}

fn holds_word(chars: &[char], word: &str) -> (yes: bool)
    ensures
        yes == text::contains(chars@, word@),
{
    let word = to_chars(word);
    holds_text(chars, word.as_slice())
}

/// What kind of failure a message tells of.
pub fn service_failure_kind(config: &SshConfig, error: &str) -> (kind: ServiceFailureKind)
    ensures
        kind == failure_kind(config.auth_profile, error@),
{
    let chars = to_chars(error);
    let lowered = lowered(chars.as_slice());
    let lowered = lowered.as_slice();
    if holds_word(lowered, "host key mismatch") {
        return ServiceFailureKind::HostKeyMismatch;
    }
    if holds_word(lowered, "auth") || holds_word(lowered, "password") || holds_word(
        lowered,
        "passphrase",
    ) || holds_word(lowered, "publickey") || (config.auth_profile == AuthProfile::Mfa
        && holds_word(lowered, "keyboard")) {
        return ServiceFailureKind::Auth;
    }
    ServiceFailureKind::Other
}

/// Whether a failure to start means that the user has to log in again.
pub fn should_mark_needs_auth(config: &SshConfig, error: &str) -> (yes: bool)
    ensures
        yes == (failure_kind(config.auth_profile, error@) == ServiceFailureKind::Auth),
{
    service_failure_kind(config, error) == ServiceFailureKind::Auth
}

/// The entry of a report for a profile that did not start.
pub open spec fn failure_of(config: SshConfig, error: Seq<char>) -> FailureModel {
    FailureModel {
        id: config.id@,
        name: config.name@,
        error,
        kind: failure_kind(config.auth_profile, error),
    }
}

/// The entry of a report for a profile that did not start.
pub fn service_failure(config: &SshConfig, error: String) -> (failure: ServiceFailure)
    ensures
        failure@ == failure_of(*config, error@),
{
    let kind = service_failure_kind(config, error.as_str());
    ServiceFailure { id: config.id.clone(), name: config.name.clone(), error, kind }
}

/// The contents of a row of failures.
pub open spec fn failures(failed: Seq<ServiceFailure>) -> Seq<FailureModel> {
    failed.map_values(|failure: ServiceFailure| failure@)
}

/// The results of starting the saved profiles one after the other.
pub struct StartTally {
    started: usize,
    failed: Vec<ServiceFailure>,
}

/// The content of a [`StartTally`].
#[verifier::ext_equal]
pub struct TallyModel {
    pub started: nat,
    pub failed: Seq<FailureModel>,
}

impl View for StartTally {
    type V = TallyModel;

    closed spec fn view(&self) -> TallyModel {
        TallyModel { started: self.started as nat, failed: failures(self.failed@) }
    }
}

/// What came of starting a profile.
pub enum StartModel {
    Up(TunnelStatus),
    Failed(Seq<char>),
}

/// The content of what starting a profile returned.
pub open spec fn start_model(result: Result<TunnelStatus, String>) -> StartModel {
    match result {
        Ok(status) => StartModel::Up(status),
        Err(error) => StartModel::Failed(error@),
    }
}

/// A tally after one more profile: it counts if its tunnel runs, and it is listed
/// if it failed.
pub open spec fn tallied(tally: TallyModel, config: SshConfig, result: StartModel) -> TallyModel {
    match result {
        StartModel::Up(status) => TallyModel {
            started: if status == TunnelStatus::Running {
                tally.started + 1
            } else {
                tally.started
            },
            ..tally
        },
        StartModel::Failed(error) => TallyModel {
            failed: tally.failed.push(failure_of(config, error)),
            ..tally
        },
    }
}

impl StartTally {
    /// The tally before the first profile.
    pub fn new() -> (tally: StartTally)
        ensures
            tally@ == (TallyModel { started: 0, failed: Seq::empty() }),
    {
        StartTally { started: 0, failed: Vec::new() }
    }

    /// Takes in what starting a profile returned.
    pub fn record(&mut self, config: &SshConfig, result: Result<TunnelStatus, String>)
        requires
            old(self)@.started < usize::MAX,
        ensures
            final(self)@ == tallied(old(self)@, *config, start_model(result)),
    {
        match result {
            Ok(status) => {
                if status == TunnelStatus::Running {
                    self.started = self.started + 1;
                }
            },
            Err(error) => {
                let failure = service_failure(config, error);
                self.failed.push(failure);
                assert(failures(self.failed@) == failures(old(self).failed@).push(failure@));
            },
        }
    }
}

/// The report on a service whose saved profiles were stopped: stopping a tunnel
/// never fails.
pub fn stop_report(status: &ServiceStatus, connections: &Vec<SshConfig>) -> (report: ServiceReport)
    ensures
        report.total == connections@.len(),
        report.running == status.running,
        report.clients == status.clients,
        report.started == 0,
        report.failed@.len() == 0,
{
    ServiceReport {
        total: connections.len(),
        running: status.running,
        started: 0,
        clients: status.clients,
        failed: Vec::new(),
    }
}

/// The tally of a row of profiles and of what starting them returned.
pub open spec fn tally_of(configs: Seq<SshConfig>, results: Seq<StartModel>) -> TallyModel
    decreases results.len(),
{
    if results.len() == 0 {
        TallyModel { started: 0, failed: Seq::empty() }
    } else {
        tallied(
            tally_of(configs, results.drop_last()),
            configs[results.len() - 1],
            results.last(),
        )
    }
}

proof fn lemma_started_at_most(configs: Seq<SshConfig>, results: Seq<StartModel>)
    ensures
        tally_of(configs, results).started <= results.len(),
    decreases results.len(),
{
    if results.len() > 0 {
        lemma_started_at_most(configs, results.drop_last());
    }
}

/// Starting the service: all saved profiles, one after the other.
pub struct StartRun {
    configs: Vec<SshConfig>,
    tally: StartTally,
    recorded: usize,
    results: Ghost<Seq<StartModel>>,
}

/// The content of a [`StartRun`].
#[verifier::ext_equal]
pub struct RunModel {
    /// The profiles to start.
    pub configs: Seq<SshConfig>,
    /// What came of starting the first of them.
    pub results: Seq<StartModel>,
}

impl View for StartRun {
    type V = RunModel;

    closed spec fn view(&self) -> RunModel {
        RunModel { configs: self.configs@, results: self.results@ }
    }
}

/// The profile to start next: the first of which nothing is recorded.
pub open spec fn upcoming(run: RunModel) -> Option<SshConfig> {
    if run.results.len() < run.configs.len() {
        Some(run.configs[run.results.len() as int])
    } else {
        None
    }
}

/// A run after one more result, whatever it is.
pub open spec fn after_result(run: RunModel, result: StartModel) -> RunModel {
    RunModel { results: run.results.push(result), ..run }
}

/// A run after a row of results.
pub open spec fn after_results(run: RunModel, results: Seq<StartModel>) -> RunModel
    decreases results.len(),
{
    if results.len() == 0 {
        run
    } else {
        after_result(after_results(run, results.drop_last()), results.last())
    }
}

impl StartRun {
    /// The tally is that of the results.
    pub closed spec fn wf(&self) -> bool {
        &&& self.recorded == self.results@.len()
        &&& self.results@.len() <= self.configs@.len()
        &&& self.tally@ == tally_of(self.configs@, self.results@)
    }

    /// A run at its beginning.
    pub fn new(configs: Vec<SshConfig>) -> (run: StartRun)
        ensures
            run.wf(),
            run@ == (RunModel { configs: configs@, results: Seq::empty() }),
    {
        StartRun { configs, tally: StartTally::new(), recorded: 0, results: Ghost(Seq::empty()) }
    }

    /// The profile to start next; none once every profile had its turn.
    pub fn next(&self) -> (config: Option<&SshConfig>)
        requires
            self.wf(),
        ensures
            match config {
                Some(config) => upcoming(self@) == Some(*config),
                None => upcoming(self@) is None,
            },
            config is None <==> self@.results.len() == self@.configs.len(),
    {
        if self.recorded < self.configs.len() {
            Some(&self.configs[self.recorded])
        } else {
            None
        }
    }

    /// Takes in what starting the next profile returned, whatever it is.
    pub fn record(&mut self, result: Result<TunnelStatus, String>)
        requires
            old(self).wf(),
            upcoming(old(self)@) is Some,
        ensures
            final(self).wf(),
            final(self)@ == after_result(old(self)@, start_model(result)),
    {
        let ghost before = self.results@;
        let ghost results = before.push(start_model(result));
        let count: usize = self.configs.len();
        proof {
            lemma_started_at_most(self.configs@, before);
            assert(before.len() < count);
            assert(results.drop_last() =~= before);
        }
        self.tally.record(&self.configs[self.recorded], result);
        self.recorded = self.recorded + 1;
        self.results = Ghost(results);
    }

    /// The report on a run in which every profile had its turn.
    pub fn report(self, status: &ServiceStatus) -> (report: ServiceReport)
        requires
            self.wf(),
            upcoming(self@) is None,
        ensures
            report.total == self@.configs.len(),
            report.running == status.running,
            report.clients == status.clients,
            report.started == tally_of(self@.configs, self@.results).started,
            failures(report.failed@) == tally_of(self@.configs, self@.results).failed,
            self@.results.len() == self@.configs.len(),
    {
        ServiceReport {
            total: self.configs.len(),
            running: status.running,
            started: self.tally.started,
            clients: status.clients,
            failed: self.tally.failed,
        }
    }
}

proof fn lemma_after_results(run: RunModel, results: Seq<StartModel>)
    ensures
        after_results(run, results).configs == run.configs,
        after_results(run, results).results == run.results + results,
    decreases results.len(),
{
    if results.len() > 0 {
        lemma_after_results(run, results.drop_last());
    }
    assert(after_results(run, results).results =~= run.results + results);
}

/// Starting the service starts all saved profiles, each once and in order: after
/// any results of those before it, failures or not, each profile has its turn, and
/// the run ends when all had theirs and not before.
pub proof fn law_every_profile_has_its_turn(configs: Seq<SshConfig>, results: Seq<StartModel>)
    requires
        results.len() <= configs.len(),
    ensures
        ({
            let start = RunModel { configs, results: Seq::empty() };
            &&& results.len() < configs.len() ==> upcoming(after_results(start, results)) == Some(
                configs[results.len() as int],
            )
            &&& results.len() == configs.len() ==> upcoming(after_results(start, results)) is None
            &&& after_results(start, results).results == results
        }),
{
    let start = RunModel { configs, results: Seq::empty() };
    lemma_after_results(start, results);
    assert(Seq::<StartModel>::empty() + results =~= results);
}

/// Starting the service accounts for every saved profile: where each start gives
/// a running tunnel or an error, the numbers of started and failed profiles add
/// up to the number of profiles.
pub proof fn law_every_profile_is_reported(configs: Seq<SshConfig>, results: Seq<StartModel>)
    requires
        results.len() == configs.len(),
        forall|i: int|
            0 <= i < results.len() ==> #[trigger] results[i] == StartModel::Up(
                TunnelStatus::Running,
            ) || results[i] is Failed,
    ensures
        tally_of(configs, results).started + tally_of(configs, results).failed.len()
            == configs.len(),
{
    lemma_tally_count(configs, results);
}

proof fn lemma_tally_count(configs: Seq<SshConfig>, results: Seq<StartModel>)
    requires
        results.len() <= configs.len(),
        forall|i: int|
            0 <= i < results.len() ==> #[trigger] results[i] == StartModel::Up(
                TunnelStatus::Running,
            ) || results[i] is Failed,
    ensures
        tally_of(configs, results).started + tally_of(configs, results).failed.len()
            == results.len(),
    decreases results.len(),
{
    if results.len() > 0 {
        let shorter = results.drop_last();
        assert forall|i: int| 0 <= i < shorter.len() implies #[trigger] shorter[i]
            == StartModel::Up(TunnelStatus::Running) || shorter[i] is Failed by {
            assert(shorter[i] == results[i]);
        }
        lemma_tally_count(configs, shorter);
        assert(results.last() == results[results.len() - 1]);
    }
}

/// The places of the starts that failed, among the first `n`.
pub open spec fn failed_places(results: Seq<StartModel>, n: nat) -> Seq<int> {
    Seq::new(n, |i: int| i).filter(|i: int| results[i] is Failed)
}

/// A profile is listed as failed for every start that failed, in the order of the
/// starts, with its message, and for nothing else.
pub proof fn law_failures_are_listed_in_order(configs: Seq<SshConfig>, results: Seq<StartModel>)
    requires
        results.len() == configs.len(),
    ensures
        tally_of(configs, results).failed == failed_places(results, results.len()).map_values(
            |i: int| failure_of(configs[i], results[i]->Failed_0),
        ),
{
    lemma_failed_places(configs, results, results.len());
    assert(results.take(results.len() as int) == results);
}

proof fn lemma_failed_places(configs: Seq<SshConfig>, results: Seq<StartModel>, n: nat)
    requires
        n <= results.len() == configs.len(),
    ensures
        tally_of(configs, results.take(n as int)).failed == failed_places(results, n).map_values(
            |i: int| failure_of(configs[i], results[i]->Failed_0),
        ),
    decreases n,
{
    let entry = |i: int| failure_of(configs[i], results[i]->Failed_0);
    reveal(Seq::filter);
    if n > 0 {
        let m = (n - 1) as nat;
        lemma_failed_places(configs, results, m);
        assert(results.take(n as int).drop_last() == results.take(m as int));
        assert(results.take(n as int).last() == results[m as int]);
        assert(Seq::new(n, |i: int| i).drop_last() =~= Seq::new(m, |i: int| i));
        let before = failed_places(results, m);
        if results[m as int] is Failed {
            assert(failed_places(results, n) == before.push(m as int));
            assert(before.push(m as int).map_values(entry) =~= before.map_values(entry).push(
                entry(m as int),
            ));
        } else {
            assert(failed_places(results, n) == before);
        }
    } else {
        assert(tally_of(configs, results.take(0)).failed =~= failed_places(results, 0).map_values(
            entry,
        ));
    }
}

/// The case of a message's letters does not change the kind of failure.
pub proof fn law_kind_ignores_case(profile: AuthProfile, error: Seq<char>)
    ensures
        failure_kind(profile, text::lower(error)) == failure_kind(profile, error),
{
    assert(text::lower(text::lower(error)) =~= text::lower(error));
}

/// A second factor only ever adds failures that need a login: what is one for an
/// ordinary profile is one for a profile with a second factor.
pub proof fn law_mfa_kinds(error: Seq<char>)
    ensures
        failure_kind(AuthProfile::Normal, error) != ServiceFailureKind::Other ==> failure_kind(
            AuthProfile::Mfa,
            error,
        ) == failure_kind(AuthProfile::Normal, error),
{
}

/// A message speaks of a word where it can be taken apart so that the word stands in
/// the middle, each letter small or capital.
pub open spec fn speaks_of(error: Seq<char>, word: Seq<char>) -> bool {
    exists|a: Seq<char>, w: Seq<char>, b: Seq<char>|
        error == #[trigger] (a + w + b) && text_laws::spelled(w, word)
}

proof fn lemma_speaks_of(error: Seq<char>, word: Seq<char>)
    requires
        forall|i: int| 0 <= i < word.len() ==> !(65 <= (#[trigger] word[i]) as int <= 90),
    ensures
        mentions(error, word) <==> speaks_of(error, word),
{
    let lowered = text::lower(error);
    let n = word.len() as int;
    if mentions(error, word) {
        let i = choose|i: int| text::occurs_at(lowered, word, i);
        let a = error.take(i);
        let w = error.subrange(i, i + n);
        let b = error.skip(i + n);
        assert(error =~= a + w + b);
        assert(text::lower(w) =~= lowered.subrange(i, i + n));
        text_laws::law_spelling(w, word);
    }
    if speaks_of(error, word) {
        let (a, w, b) = choose|a: Seq<char>, w: Seq<char>, b: Seq<char>|
            error == #[trigger] (a + w + b) && text_laws::spelled(w, word);
        let i = a.len() as int;
        text_laws::law_spelling(w, word);
        assert(lowered.subrange(i, i + n) =~= text::lower(w));
        assert(text::occurs_at(lowered, word, i));
    }
}

/// A failure that speaks of a host key mismatch is one, whatever else it says; of
/// the others, those that speak of authentication, a password, a passphrase or a
/// public key, and for a profile with a second factor of the keyboard, need a
/// login; and no others do.
pub proof fn law_failure_kinds(profile: AuthProfile, error: Seq<char>)
    ensures
        ({
            let kind = failure_kind(profile, error);
            let mismatch = speaks_of(error, "host key mismatch"@);
            let login = speaks_of(error, "auth"@) || speaks_of(error, "password"@) || speaks_of(
                error,
                "passphrase"@,
            ) || speaks_of(error, "publickey"@) || (profile == AuthProfile::Mfa && speaks_of(
                error,
                "keyboard"@,
            ));
            &&& kind == ServiceFailureKind::HostKeyMismatch <==> mismatch
            &&& kind == ServiceFailureKind::Auth <==> login && !mismatch
            &&& kind == ServiceFailureKind::Other <==> !login && !mismatch
        }),
{
    reveal_strlit("host key mismatch");
    reveal_strlit("auth");
    reveal_strlit("password");
    reveal_strlit("passphrase");
    reveal_strlit("publickey");
    reveal_strlit("keyboard");
    lemma_speaks_of(error, "host key mismatch"@);
    lemma_speaks_of(error, "auth"@);
    lemma_speaks_of(error, "password"@);
    lemma_speaks_of(error, "passphrase"@);
    lemma_speaks_of(error, "publickey"@);
    lemma_speaks_of(error, "keyboard"@);
}

/// The entry of a profile that did not start bears its id and name, the very
/// message, and the kind of failure that the message tells of.
pub proof fn law_failure_entry(config: SshConfig, error: String, failure: ServiceFailure)
    requires
        call_ensures(service_failure, (&config, error), failure),
    ensures
        failure.id@ == config.id@,
        failure.name@ == config.name@,
        failure.error@ == error@,
        failure.kind == failure_kind(config.auth_profile, error@),
{
}

/// Started are as many profiles as there are starts that gave a running tunnel, and
/// failed as many as there are starts that gave an error.
pub proof fn law_starts_are_counted(configs: Seq<SshConfig>, results: Seq<StartModel>)
    ensures
        tally_of(configs, results).started == results.filter(
            |result: StartModel| result == StartModel::Up(TunnelStatus::Running),
        ).len(),
        tally_of(configs, results).failed.len() == results.filter(
            |result: StartModel| result is Failed,
        ).len(),
    decreases results.len(),
{
    reveal(Seq::filter);
    if results.len() > 0 {
        law_starts_are_counted(configs, results.drop_last());
    }
}

/// The report on a stopped service counts the saved profiles, and what is still up
/// and connected; nothing was started, and nothing failed.
pub proof fn law_stop_report(
    status: ServiceStatus,
    connections: Vec<SshConfig>,
    report: ServiceReport,
)
    requires
        call_ensures(stop_report, (&status, &connections), report),
    ensures
        report.total == connections@.len(),
        report.running == status.running,
        report.clients == status.clients,
        report.started == 0,
        report.failed@.len() == 0,
{
}

/// The report on a started service counts all profiles and takes over what is up
/// and connected; with the number of those started and of those listed as failed it
/// accounts for the results of all starts.
pub proof fn law_start_report(run: StartRun, status: ServiceStatus, report: ServiceReport)
    requires
        call_ensures(StartRun::report, (run, &status), report),
    ensures
        report.total == run@.configs.len(),
        report.running == status.running,
        report.clients == status.clients,
        report.started == run@.results.filter(
            |result: StartModel| result == StartModel::Up(TunnelStatus::Running),
        ).len(),
        report.failed@.len() == run@.results.filter(|result: StartModel| result is Failed).len(),
{
    law_starts_are_counted(run@.configs, run@.results);
}

/// What a start has given is recorded as it is: the status of a tunnel, or the
/// message of a failure. The profiles stay as they are.
pub proof fn law_results_are_recorded(run: &mut StartRun, result: Result<TunnelStatus, String>)
    requires
        call_ensures(StartRun::record, (run, result), ()),
    ensures
        final(run)@.configs == old(run)@.configs,
        final(run)@.results == old(run)@.results.push(
            match result {
                Ok(status) => StartModel::Up(status),
                Err(error) => StartModel::Failed(error@),
            },
        ),
{
}

} // verus!
