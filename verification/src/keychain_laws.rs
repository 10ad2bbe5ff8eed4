//! What the accounts of the secrets come to in a keychain that does as it is told:
//! one that keeps what it is given, forgets what it is told to delete, and that
//! nobody else changes. The system's keychain is the judge of whether it is one.
use vstd::prelude::*;
use crate::config::{AuthMethod, SavePlan, SshConfig};
use crate::keychain;
use crate::keychain::{keep_secrets, SecretKind, SERVICE_NAME};
use crate::login::{prepare_login, Login, LoginModel};

verus! {

/// The secrets of a keychain, by service and account.
pub type Secrets = Map<(Seq<char>, Seq<char>), Seq<char>>;

/// The service and the account of a profile's secret.
pub open spec fn slot(config_id: Seq<char>, kind: SecretKind) -> (Seq<char>, Seq<char>) {
    (SERVICE_NAME@, keychain::account_of(config_id, kind))
}

/// The secret of a profile.
pub open spec fn secret_of(secrets: Secrets, config_id: Seq<char>, kind: SecretKind) -> Option<
    Seq<char>,
> {
    if secrets.dom().contains(slot(config_id, kind)) {
        Some(secrets[slot(config_id, kind)])
    } else {
        None
    }
}

/// A change that was carried out.
pub enum Change {
    /// A secret of a profile was kept.
    Kept(Seq<char>, SecretKind, Seq<char>),
    /// The secrets of a profile were deleted, as far as there were any.
    Deleted(Seq<char>),
}

/// The secrets after a change.
pub open spec fn changed(secrets: Secrets, change: Change) -> Secrets {
    match change {
        Change::Kept(id, kind, secret) => secrets.insert(slot(id, kind), secret),
        Change::Deleted(id) => secrets.remove(slot(id, SecretKind::Password)).remove(
            slot(id, SecretKind::KeyPassphrase),
        ),
    }
}

/// The secrets after a row of changes.
pub open spec fn all_changed(secrets: Secrets, changes: Seq<Change>) -> Secrets
    decreases changes.len(),
{
    if changes.len() == 0 {
        secrets
    } else {
        changed(all_changed(secrets, changes.drop_last()), changes.last())
    }
}

/// A change that is about another secret: of another profile, or of the other kind
/// where one is kept.
pub open spec fn elsewhere(change: Change, config_id: Seq<char>, kind: SecretKind) -> bool {
    match change {
        Change::Kept(id, other, _) => id != config_id || other != kind,
        Change::Deleted(id) => id != config_id,
    }
}

proof fn lemma_elsewhere(
    secrets: Secrets,
    change: Change,
    config_id: Seq<char>,
    kind: SecretKind,
)
    requires
        elsewhere(change, config_id, kind),
    ensures
        secret_of(changed(secrets, change), config_id, kind) == secret_of(
            secrets,
            config_id,
            kind,
        ),
{
    match change {
        Change::Kept(id, other, _) => {
            if slot(id, other) == slot(config_id, kind) {
                keychain::law_accounts_differ(id, other, config_id, kind);
            }
        },
        Change::Deleted(id) => {
            if slot(id, SecretKind::Password) == slot(config_id, kind) {
                keychain::law_accounts_differ(id, SecretKind::Password, config_id, kind);
            }
            if slot(id, SecretKind::KeyPassphrase) == slot(config_id, kind) {
                keychain::law_accounts_differ(id, SecretKind::KeyPassphrase, config_id, kind);
            }
        },
    }
}

proof fn lemma_all_elsewhere(
    secrets: Secrets,
    changes: Seq<Change>,
    config_id: Seq<char>,
    kind: SecretKind,
)
    requires
        forall|i: int|
            0 <= i < changes.len() ==> elsewhere(#[trigger] changes[i], config_id, kind),
    ensures
        secret_of(all_changed(secrets, changes), config_id, kind) == secret_of(
            secrets,
            config_id,
            kind,
        ),
    decreases changes.len(),
{
    if changes.len() > 0 {
        let fewer = changes.drop_last();
        assert forall|i: int| 0 <= i < fewer.len() implies elsewhere(
            #[trigger] fewer[i],
            config_id,
            kind,
        ) by {
            assert(fewer[i] == changes[i]);
        }
        lemma_all_elsewhere(secrets, fewer, config_id, kind);
        assert(elsewhere(changes[changes.len() - 1], config_id, kind));
        lemma_elsewhere(all_changed(secrets, fewer), changes.last(), config_id, kind);
    }
}

/// In a keychain that does as it is told, a secret that was kept is there until it
/// is changed or its profile's secrets are deleted, whatever is done for other
/// profiles and with the profile's other secret.
pub proof fn law_kept_secret_stays(
    secrets: Secrets,
    config_id: Seq<char>,
    kind: SecretKind,
    secret: Seq<char>,
    later: Seq<Change>,
)
    requires
        forall|i: int| 0 <= i < later.len() ==> elsewhere(#[trigger] later[i], config_id, kind),
    ensures
        secret_of(
            all_changed(changed(secrets, Change::Kept(config_id, kind, secret)), later),
            config_id,
            kind,
        ) == Some(secret),
{
    lemma_all_elsewhere(
        changed(secrets, Change::Kept(config_id, kind, secret)),
        later,
        config_id,
        kind,
    );
}

/// In a keychain that does as it is told, the two secrets of a profile are there
/// side by side, in whichever order they were kept.
pub proof fn law_secrets_of_a_profile_are_apart(
    secrets: Secrets,
    config_id: Seq<char>,
    password: Seq<char>,
    passphrase: Seq<char>,
)
    ensures
        ({
            let first = Change::Kept(config_id, SecretKind::KeyPassphrase, passphrase);
            let second = Change::Kept(config_id, SecretKind::Password, password);
            let one = changed(changed(secrets, first), second);
            let other = changed(changed(secrets, second), first);
            &&& secret_of(one, config_id, SecretKind::Password) == Some(password)
            &&& secret_of(one, config_id, SecretKind::KeyPassphrase) == Some(passphrase)
            &&& other == one
        }),
{
    let first = Change::Kept(config_id, SecretKind::KeyPassphrase, passphrase);
    let second = Change::Kept(config_id, SecretKind::Password, password);
    lemma_elsewhere(changed(secrets, first), second, config_id, SecretKind::KeyPassphrase);
    if slot(config_id, SecretKind::Password) == slot(config_id, SecretKind::KeyPassphrase) {
        keychain::law_accounts_differ(
            config_id,
            SecretKind::Password,
            config_id,
            SecretKind::KeyPassphrase,
        );
    }
    assert(changed(changed(secrets, second), first) =~= changed(
        changed(secrets, first),
        second,
    ));
}

/// In a keychain that does as it is told, a profile has no secrets once they were
/// deleted, whether it had any or not, and every other profile has those that it
/// had.
pub proof fn law_deleted_secrets_are_gone(
    secrets: Secrets,
    config_id: Seq<char>,
    other: Seq<char>,
    kind: SecretKind,
)
    ensures
        secret_of(changed(secrets, Change::Deleted(config_id)), config_id, kind) is None,
        other != config_id ==> secret_of(
            changed(secrets, Change::Deleted(config_id)),
            other,
            kind,
        ) == secret_of(secrets, other, kind),
{
    if other != config_id {
        lemma_elsewhere(secrets, Change::Deleted(config_id), other, kind);
    }
}

/// The answer of a keychain to a question for a secret that is there or is not.
pub open spec fn answers(
    config_id: Seq<char>,
    kind: SecretKind,
    secret: Option<Seq<char>>,
) -> bool {
    forall|reply: Result<Seq<char>, Seq<char>>| #[trigger]
        keychain::asking_gives(SERVICE_NAME@, keychain::account_of(config_id, kind), reply)
            ==> match secret {
            Some(secret) => reply == Ok::<Seq<char>, Seq<char>>(secret),
            None => reply is Err,
        }
}

/// The secret that a login shows is the one that is kept for it. In a keychain that
/// answers with what it holds, once a password was kept for a profile, and whatever
/// was done since for other profiles and with its passphrase, a login of the
/// profile with a password shows that password.
pub proof fn law_kept_password_is_shown(
    secrets: Secrets,
    config: SshConfig,
    password: Seq<char>,
    later: Seq<Change>,
    login: Result<Login, String>,
)
    requires
        config.auth_method == AuthMethod::Password,
        forall|i: int|
            0 <= i < later.len() ==> elsewhere(
                #[trigger] later[i],
                config.id@,
                SecretKind::Password,
            ),
        call_ensures(prepare_login, (&config,), login),
    ensures
        ({
            let kept = changed(secrets, Change::Kept(config.id@, SecretKind::Password, password));
            let held = secret_of(all_changed(kept, later), config.id@, SecretKind::Password);
            answers(config.id@, SecretKind::Password, held) ==> login is Ok && login->Ok_0@
                == LoginModel::Password(password)
        }),
{
    law_kept_secret_stays(secrets, config.id@, SecretKind::Password, password, later);
}

/// In a keychain that answers with what it holds, a login with a private key shows
/// the key of the profile with the passphrase that was kept for it.
pub proof fn law_kept_passphrase_is_shown(
    secrets: Secrets,
    config: SshConfig,
    passphrase: Seq<char>,
    later: Seq<Change>,
    login: Result<Login, String>,
)
    requires
        config.auth_method == AuthMethod::Key,
        config.key_path is Some,
        forall|i: int|
            0 <= i < later.len() ==> elsewhere(
                #[trigger] later[i],
                config.id@,
                SecretKind::KeyPassphrase,
            ),
        call_ensures(prepare_login, (&config,), login),
    ensures
        ({
            let kind = SecretKind::KeyPassphrase;
            let kept = changed(secrets, Change::Kept(config.id@, kind, passphrase));
            let held = secret_of(all_changed(kept, later), config.id@, kind);
            answers(config.id@, kind, held) ==> login is Ok && login->Ok_0@ == LoginModel::Key(
                config.key_path->0@,
                Some(passphrase),
            )
        }),
{
    law_kept_secret_stays(secrets, config.id@, SecretKind::KeyPassphrase, passphrase, later);
}

/// In a keychain that answers with what it holds, after the secrets of a profile
/// were deleted its login fails where it takes a password, and shows the key
/// without a passphrase where it takes a key. A key without a path is never shown.
pub proof fn law_login_without_secrets(
    secrets: Secrets,
    config: SshConfig,
    login: Result<Login, String>,
)
    requires
        call_ensures(prepare_login, (&config,), login),
    ensures
        ({
            let left = changed(secrets, Change::Deleted(config.id@));
            let password = secret_of(left, config.id@, SecretKind::Password);
            let passphrase = secret_of(left, config.id@, SecretKind::KeyPassphrase);
            &&& config.auth_method == AuthMethod::Password && answers(
                config.id@,
                SecretKind::Password,
                password,
            ) ==> login is Err && login->Err_0@
                == "Password is missing. Save the connection with a password first."@
            &&& config.auth_method == AuthMethod::Key && config.key_path is Some && answers(
                config.id@,
                SecretKind::KeyPassphrase,
                passphrase,
            ) ==> login is Ok && login->Ok_0@ == LoginModel::Key(config.key_path->0@, None)
            &&& config.auth_method == AuthMethod::Key && config.key_path is None ==> login is Err
                && login->Err_0@ == "Key path is required for key authentication."@
        }),
{
    law_deleted_secrets_are_gone(secrets, config.id@, config.id@, SecretKind::Password);
    law_deleted_secrets_are_gone(secrets, config.id@, config.id@, SecretKind::KeyPassphrase);
}

/// Saving a profile keeps the secrets that were entered with it, each where a login
/// asks for it: once that has succeeded, the password was kept as the profile's
/// password and the passphrase as its passphrase. An error is the answer to one of
/// the two.
pub proof fn law_entered_secrets_are_kept(plan: SavePlan, reply: Result<(), String>)
    requires
        call_ensures(keep_secrets, (&plan,), reply),
    ensures
        ({
            let service = "com.zhengwei.wormhole"@;
            let first = plan.config.id@ + ":password"@;
            let second = plan.config.id@ + ":keypass"@;
            &&& reply is Ok && plan.password is Some ==> keychain::keeping_gives(
                service,
                first,
                plan.password->0@,
                Ok(()),
            )
            &&& reply is Ok && plan.key_passphrase is Some ==> keychain::keeping_gives(
                service,
                second,
                plan.key_passphrase->0@,
                Ok(()),
            )
            &&& reply matches Err(message) ==> {
                ||| plan.password is Some && keychain::keeping_gives(
                    service,
                    first,
                    plan.password->0@,
                    Err(message@),
                )
                ||| plan.key_passphrase is Some && keychain::keeping_gives(
                    service,
                    second,
                    plan.key_passphrase->0@,
                    Err(message@),
                )
            }
        }),
{
    keychain::law_account_names(plan.config.id@);
}

} // verus!
