//! Logging in to an SSH server.
use vstd::prelude::*;
use crate::config;
use crate::config::{AuthMethod, AuthProfile, SshConfig};
use crate::keychain;
use crate::keychain::{get_key_passphrase, get_password, SecretKind, SERVICE_NAME};
use crate::service;
use crate::service::ServiceFailureKind;
use crate::text;

verus! {

broadcast use vstd::string::group_string_axioms;

/// What is shown to the server first.
#[derive(Debug)]
pub enum Login {
    /// A password.
    Password(String),
    /// A private key, from the file with this path, and its passphrase if there is
    /// one.
    Key(String, Option<String>),
}

/// The content of a [`Login`].
pub enum LoginModel {
    Password(Seq<char>),
    Key(Seq<char>, Option<Seq<char>>),
}

impl View for Login {
    type V = LoginModel;

    open spec fn view(&self) -> LoginModel {
        match self {
            Login::Password(password) => LoginModel::Password(password@),
            Login::Key(path, passphrase) => LoginModel::Key(path@, config::opt_text(*passphrase)),
        }
    }
}

/// The content of what [`login_with`] returns.
pub open spec fn login_model(login: Result<Login, String>) -> Result<LoginModel, Seq<char>> {
    match login {
        Ok(login) => Ok(login@),
        Err(message) => Err(message@),
    }
}

/// The secret that a login of this kind asks the keychain for.
pub open spec fn secret_for(method: AuthMethod) -> SecretKind {
    match method {
        AuthMethod::Password => SecretKind::Password,
        AuthMethod::Key => SecretKind::KeyPassphrase,
    }
}

/// What is shown to the server, from the keychain's answer: a password has to be
/// there, a passphrase need not be.
pub open spec fn login_from(
    method: AuthMethod,
    key_path: Option<Seq<char>>,
    reply: Result<Seq<char>, Seq<char>>,
) -> Result<LoginModel, Seq<char>> {
    match method {
        AuthMethod::Password => match reply {
            Ok(password) => Ok(LoginModel::Password(password)),
            Err(_) => Err("Password is missing. Save the connection with a password first."@),
        },
        AuthMethod::Key => match key_path {
            Some(path) => Ok(
                LoginModel::Key(
                    path,
                    match reply {
                        Ok(passphrase) => Some(passphrase),
                        Err(_) => None,
                    },
                ),
            ),
            None => Err("Key path is required for key authentication."@),
        },
    }
}

/// What is shown to the server, from the keychain's answer.
pub fn login_with(config: &SshConfig, reply: Result<String, String>) -> (login: Result<
    Login,
    String,
>)
    ensures
        login_model(login) == login_from(
            config.auth_method,
            config::opt_text(config.key_path),
            keychain::read_reply(reply),
        ),
{
    match config.auth_method {
        AuthMethod::Password => match reply {
            Ok(password) => Ok(Login::Password(password)),
            Err(_) => Err(
                "Password is missing. Save the connection with a password first.".to_string(),
            ),
        },
        AuthMethod::Key => match &config.key_path {
            Some(path) => {
                let passphrase = match reply {
                    Ok(passphrase) => Some(passphrase),
                    Err(_) => None,
                };
                Ok(Login::Key(path.clone(), passphrase))
            },
            None => Err("Key path is required for key authentication.".to_string()),
        },
    }
}

/// What is shown to the server of a profile: the keychain is asked for the
/// profile's secret, unless a private key is to be shown and its path is missing.
pub fn prepare_login(config: &SshConfig) -> (login: Result<Login, String>)
    ensures
        if config.auth_method == AuthMethod::Key && config.key_path is None {
            login_model(login) == Err::<LoginModel, Seq<char>>(
                "Key path is required for key authentication."@,
            )
        } else {
            exists|reply: Result<Seq<char>, Seq<char>>|
                {
                    &&& #[trigger] keychain::asking_gives(
                        SERVICE_NAME@,
                        keychain::account_of(config.id@, secret_for(config.auth_method)),
                        reply,
                    )
                    &&& login_model(login) == login_from(
                        config.auth_method,
                        config::opt_text(config.key_path),
                        reply,
                    )
                }
        },
        config.auth_method == AuthMethod::Password ==> exists|reply: Result<Seq<char>, Seq<char>>|
            {
                &&& #[trigger] keychain::asking_gives(
                    SERVICE_NAME@,
                    keychain::account_of(config.id@, SecretKind::Password),
                    reply,
                )
                &&& login_model(login) == match reply {
                    Ok(password) => Ok(LoginModel::Password(password)),
                    Err(_) => Err(
                        "Password is missing. Save the connection with a password first."@,
                    ),
                }
            },
        config.auth_method == AuthMethod::Key && config.key_path is Some ==> exists|
            reply: Result<Seq<char>, Seq<char>>,
        |
            {
                &&& #[trigger] keychain::asking_gives(
                    SERVICE_NAME@,
                    keychain::account_of(config.id@, SecretKind::KeyPassphrase),
                    reply,
                )
                &&& login_model(login) == Ok::<LoginModel, Seq<char>>(
                    LoginModel::Key(
                        config.key_path->0@,
                        match reply {
                            Ok(passphrase) => Some(passphrase),
                            Err(_) => None,
                        },
                    ),
                )
            },
{
    let reply = match config.auth_method {
        AuthMethod::Password => get_password(config.id.as_str()),
        AuthMethod::Key => {
            if config.key_path.is_none() {
                return Err("Key path is required for key authentication.".to_string());
            }
            get_key_passphrase(config.id.as_str())
        },
    };
    login_with(config, reply)
}

/// How far a login has come: what is waited for.
#[derive(Debug)]
pub enum LoginPhase {
    /// What the server says to a password.
    Password,
    /// What the server says to a private key.
    Key,
    /// What the server says to the keys of the agent, after a private key failed
    /// with this message.
    Agent(String),
    /// Whether the session is authenticated.
    Confirm,
}

/// What came of it.
#[derive(Debug)]
pub enum LoginEvent {
    /// What was shown was accepted.
    Accepted,
    /// It was not, for this reason.
    Rejected(String),
}

/// What follows.
#[derive(Debug)]
pub enum LoginStep {
    /// Try the keys of the agent, or ask whether the session is authenticated.
    Next(LoginPhase),
    /// The login has succeeded.
    Success,
    /// It has failed, for this reason.
    Failure(String),
}

/// The content of a [`LoginPhase`].
pub enum LoginPhaseModel {
    Password,
    Key,
    Agent(Seq<char>),
    Confirm,
}

/// The content of a [`LoginEvent`].
pub enum LoginEventModel {
    Accepted,
    Rejected(Seq<char>),
}

/// The content of a [`LoginStep`].
pub enum LoginStepModel {
    Next(LoginPhaseModel),
    Success,
    Failure(Seq<char>),
}

impl View for LoginPhase {
    type V = LoginPhaseModel;

    open spec fn view(&self) -> LoginPhaseModel {
        match self {
            LoginPhase::Password => LoginPhaseModel::Password,
            LoginPhase::Key => LoginPhaseModel::Key,
            LoginPhase::Agent(error) => LoginPhaseModel::Agent(error@),
            LoginPhase::Confirm => LoginPhaseModel::Confirm,
        }
    }
}

impl View for LoginEvent {
    type V = LoginEventModel;

    open spec fn view(&self) -> LoginEventModel {
        match self {
            LoginEvent::Accepted => LoginEventModel::Accepted,
            LoginEvent::Rejected(reason) => LoginEventModel::Rejected(reason@),
        }
    }
}

impl View for LoginStep {
    type V = LoginStepModel;

    open spec fn view(&self) -> LoginStepModel {
        match self {
            LoginStep::Next(phase) => LoginStepModel::Next(phase@),
            LoginStep::Success => LoginStepModel::Success,
            LoginStep::Failure(reason) => LoginStepModel::Failure(reason@),
        }
    }
}

/// What is waited for once something has been shown to the server.
pub open spec fn first_phase(login: LoginModel) -> LoginPhaseModel {
    match login {
        LoginModel::Password(_) => LoginPhaseModel::Password,
        LoginModel::Key(_, _) => LoginPhaseModel::Key,
    }
}

/// Why a login with keys has failed.
pub open spec fn keys_failed(key_error: Seq<char>, agent_error: Seq<char>) -> Seq<char> {
    "SSH key authentication failed: "@ + key_error + "; agent fallback failed: "@ + agent_error
}

/// What follows from what the server said: the agent's keys are tried only after
/// a private key, and even a login that was accepted has to be confirmed.
pub open spec fn login_next(phase: LoginPhaseModel, event: LoginEventModel) -> LoginStepModel {
    match event {
        LoginEventModel::Accepted => match phase {
            LoginPhaseModel::Confirm => LoginStepModel::Success,
            _ => LoginStepModel::Next(LoginPhaseModel::Confirm),
        },
        LoginEventModel::Rejected(reason) => match phase {
            LoginPhaseModel::Password => LoginStepModel::Failure(reason),
            LoginPhaseModel::Key => LoginStepModel::Next(LoginPhaseModel::Agent(reason)),
            LoginPhaseModel::Agent(key_error) => LoginStepModel::Failure(
                keys_failed(key_error, reason),
            ),
            LoginPhaseModel::Confirm => LoginStepModel::Failure("SSH authentication failed."@),
        },
    }
}

/// What is waited for once something has been shown to the server.
pub fn login_start(login: &Login) -> (phase: LoginPhase)
    ensures
        phase@ == first_phase(login@),
{
    match login {
        Login::Password(_) => LoginPhase::Password,
        Login::Key(_, _) => LoginPhase::Key,
    }
}

/// What follows from what the server said.
pub fn authenticate_session(phase: LoginPhase, event: LoginEvent) -> (step: LoginStep)
    ensures
        step@ == login_next(phase@, event@),
{
    match event {
        LoginEvent::Accepted => match phase {
            LoginPhase::Confirm => LoginStep::Success,
            _ => LoginStep::Next(LoginPhase::Confirm),
        },
        LoginEvent::Rejected(reason) => match phase {
            LoginPhase::Password => LoginStep::Failure(reason),
            LoginPhase::Key => LoginStep::Next(LoginPhase::Agent(reason)),
            LoginPhase::Agent(key_error) => {
                let mut message = "SSH key authentication failed: ".to_string();
                message.append(key_error.as_str());
                message.append("; agent fallback failed: ");
                message.append(reason.as_str());
                LoginStep::Failure(message)
            },
            LoginPhase::Confirm => LoginStep::Failure("SSH authentication failed.".to_string()),
        },
    }
}

/// Nobody is logged in without a confirmed session: success comes only where a
/// login that was accepted has been confirmed.
pub proof fn law_login_is_confirmed(phase: LoginPhaseModel, event: LoginEventModel)
    ensures
        login_next(phase, event) is Success <==> phase is Confirm && event is Accepted,
{
}

proof fn lemma_mentions(error: Seq<char>, word: Seq<char>, at: int)
    requires
        text::occurs_at(text::lower(error), word, at),
    ensures
        service::mentions(error, word),
{
}

proof fn lemma_not_mentioned(error: Seq<char>)
    requires
        forall|i: int| 0 <= i < error.len() ==> error[i] != 'k' && error[i] != 'K',
    ensures
        !service::mentions(error, "host key mismatch"@),
{
    reveal_strlit("host key mismatch");
    let lowered = text::lower(error);
    let word = "host key mismatch"@;
    assert forall|i: int| !text::occurs_at(lowered, word, i) by {
        if text::occurs_at(lowered, word, i) {
            assert(lowered.subrange(i, i + word.len())[5] == 'k');
            assert(lowered[i + 5] == 'k');
            assert(error[i + 5] != 'k');
        }
    }
}

/// A login that fails for the lack of a password, for keys that are not accepted
/// or for a session that is not authenticated is reported as a failure to log in;
/// only where a message about the keys speaks of a host key mismatch is it
/// reported as that.
pub proof fn law_failed_login_is_reported_as_such(
    profile: AuthProfile,
    key_error: Seq<char>,
    agent_error: Seq<char>,
)
    ensures
        service::failure_kind(
            profile,
            "Password is missing. Save the connection with a password first."@,
        ) == ServiceFailureKind::Auth,
        service::failure_kind(profile, "SSH authentication failed."@) == ServiceFailureKind::Auth,
        service::failure_kind(profile, keys_failed(key_error, agent_error)) == (
        if service::mentions(keys_failed(key_error, agent_error), "host key mismatch"@) {
            ServiceFailureKind::HostKeyMismatch
        } else {
            ServiceFailureKind::Auth
        }),
{
    reveal_strlit("Password is missing. Save the connection with a password first.");
    reveal_strlit("password");
    reveal_strlit("SSH authentication failed.");
    reveal_strlit("SSH key authentication failed: ");
    reveal_strlit("auth");

    let missing = "Password is missing. Save the connection with a password first."@;
    assert(text::lower(missing).subrange(0, 8) =~= "password"@);
    lemma_mentions(missing, "password"@, 0);
    lemma_not_mentioned(missing);

    let refused = "SSH authentication failed."@;
    assert(text::lower(refused).subrange(4, 8) =~= "auth"@);
    lemma_mentions(refused, "auth"@, 4);
    lemma_not_mentioned(refused);

    let keys = keys_failed(key_error, agent_error);
    assert(text::lower(keys).subrange(8, 12) =~= "auth"@);
    lemma_mentions(keys, "auth"@, 8);
}

/// A password that the server refuses fails the login with the server's own
/// reason; a private key that it refuses is followed by the keys of the agent, and
/// only if these are refused too does the login fail, with both reasons. Whatever
/// is accepted has to be confirmed.
pub proof fn law_login_goes_step_by_step(
    phase: LoginPhaseModel,
    reason: Seq<char>,
    key_error: Seq<char>,
)
    ensures
        login_next(LoginPhaseModel::Password, LoginEventModel::Rejected(reason))
            == LoginStepModel::Failure(reason),
        login_next(LoginPhaseModel::Key, LoginEventModel::Rejected(reason))
            == LoginStepModel::Next(LoginPhaseModel::Agent(reason)),
        login_next(LoginPhaseModel::Agent(key_error), LoginEventModel::Rejected(reason))
            == LoginStepModel::Failure(
            "SSH key authentication failed: "@ + key_error + "; agent fallback failed: "@ + reason,
        ),
        login_next(LoginPhaseModel::Confirm, LoginEventModel::Rejected(reason))
            == LoginStepModel::Failure("SSH authentication failed."@),
        !(phase is Confirm) ==> login_next(phase, LoginEventModel::Accepted)
            == LoginStepModel::Next(LoginPhaseModel::Confirm),
{
}

/// What is waited for is the answer to what was shown: to a password for a
/// password, to a key for a key.
pub proof fn law_first_answer_is_to_what_was_shown(
    password: Seq<char>,
    path: Seq<char>,
    passphrase: Option<Seq<char>>,
)
    ensures
        first_phase(LoginModel::Password(password)) is Password,
        first_phase(LoginModel::Key(path, passphrase)) is Key,
{
}

} // verus!
