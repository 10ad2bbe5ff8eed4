//! Secrets in the system's keychain.
use vstd::prelude::*;
use crate::config;
use crate::config::SavePlan;

verus! {

broadcast use vstd::string::group_string_axioms;

/// The service under which all secrets are kept.
pub const SERVICE_NAME: &'static str = "com.zhengwei.wormhole";

/// A secret of a profile.
#[derive(Debug, Clone, Copy, PartialEq, Eq, Structural)]
pub enum SecretKind {
    /// The password of an account on the server.
    Password,
    /// The passphrase of a private key.
    KeyPassphrase,
}

/// The word that stands for a kind of secret in the keychain.
pub open spec fn kind_word(kind: SecretKind) -> Seq<char> {
    match kind {
        SecretKind::Password => "password"@,
        SecretKind::KeyPassphrase => "keypass"@,
    }
}

/// The account under which a profile's secret is kept.
pub open spec fn account_of(config_id: Seq<char>, kind: SecretKind) -> Seq<char> {
    config_id + ":"@ + kind_word(kind)
}

/// The account under which a profile's secret is kept.
pub fn entry_account(config_id: &str, kind: SecretKind) -> (account: String)
    ensures
        account@ == account_of(config_id@, kind),
{
    let word = match kind {
        SecretKind::Password => "password",
        SecretKind::KeyPassphrase => "keypass",
    };
    let mut account = config_id.to_string();
    account.append(":");
    account.append(word);
    account
}

/// What a call to the keychain gave: a value, or the text of an error.
pub open spec fn read_reply(reply: Result<String, String>) -> Result<Seq<char>, Seq<char>> {
    match reply {
        Ok(secret) => Ok(secret@),
        Err(message) => Err(message@),
    }
}

/// What a call to the keychain gave: success, or the text of an error.
pub open spec fn done_reply(reply: Result<(), String>) -> Result<(), Seq<char>> {
    match reply {
        Ok(()) => Ok(()),
        Err(message) => Err(message@),
    }
}

/// An answer that the keychain can give when a secret is to be kept under a
/// service and an account. Which answers it can give is the keychain's affair, and
/// two calls may get two answers.
pub uninterp spec fn keeping_gives(
    service: Seq<char>,
    account: Seq<char>,
    secret: Seq<char>,
    reply: Result<(), Seq<char>>,
) -> bool;

/// An answer that the keychain can give when the secret under a service and an
/// account is asked for. Which answers it can give is the keychain's affair, and
/// two calls may get two answers.
pub uninterp spec fn asking_gives(
    service: Seq<char>,
    account: Seq<char>,
    reply: Result<Seq<char>, Seq<char>>,
) -> bool;

/// An answer that the keychain can give when the secret under a service and an
/// account is to be deleted. Which answers it can give is the keychain's affair,
/// and two calls may get two answers.
pub uninterp spec fn deleting_gives(
    service: Seq<char>,
    account: Seq<char>,
    reply: Result<(), Seq<char>>,
) -> bool;

/// `keyring::Entry::new` for a service and an account, then
/// `keyring::Entry::set_password` on that entry; an error of either is given as
/// its text. The answer rests on the system's keychain: the contract claims only
/// that it is one to this service, account and secret.
#[verifier::external_body]
fn keep(service: &str, account: &str, secret: &str) -> (reply: Result<(), String>)
    ensures
        keeping_gives(service@, account@, secret@, done_reply(reply)),
{
    let entry = match keyring::Entry::new(service, account) {
        Ok(entry) => entry,
        Err(error) => return Err(error.to_string()),
    };
    match entry.set_password(secret) {
        Ok(()) => Ok(()),
        Err(error) => Err(error.to_string()),
    }
}

/// `keyring::Entry::new` for a service and an account, then
/// `keyring::Entry::get_password` on that entry; an error of either is given as
/// its text. The answer rests on the system's keychain, which others change too:
/// the contract claims only that it is one to this service and account.
#[verifier::external_body]
fn ask(service: &str, account: &str) -> (reply: Result<String, String>)
    ensures
        asking_gives(service@, account@, read_reply(reply)),
{
    let entry = match keyring::Entry::new(service, account) {
        Ok(entry) => entry,
        Err(error) => return Err(error.to_string()),
    };
    match entry.get_password() {
        Ok(secret) => Ok(secret),
        Err(error) => Err(error.to_string()),
    }
}

/// `keyring::Entry::new` for a service and an account, then
/// `keyring::Entry::delete_credential` on that entry; an error of either is given
/// as its text. The answer rests on the system's keychain: the contract claims
/// only that it is one to this service and account.
#[verifier::external_body]
fn delete(service: &str, account: &str) -> (reply: Result<(), String>)
    ensures
        deleting_gives(service@, account@, done_reply(reply)),
{
    let entry = match keyring::Entry::new(service, account) {
        Ok(entry) => entry,
        Err(error) => return Err(error.to_string()),
    };
    match entry.delete_credential() {
        Ok(()) => Ok(()),
        Err(error) => Err(error.to_string()),
    }
}

/// Keeps the password of a profile.
pub fn set_password(config_id: &str, password: &str) -> (reply: Result<(), String>)
    ensures
        keeping_gives(
            SERVICE_NAME@,
            account_of(config_id@, SecretKind::Password),
            password@,
            done_reply(reply),
        ),
{
    let account = entry_account(config_id, SecretKind::Password);
    keep(SERVICE_NAME, account.as_str(), password)
}

/// The password of a profile.
pub fn get_password(config_id: &str) -> (reply: Result<String, String>)
    ensures
        asking_gives(
            SERVICE_NAME@,
            account_of(config_id@, SecretKind::Password),
            read_reply(reply),
        ),
{
    let account = entry_account(config_id, SecretKind::Password);
    ask(SERVICE_NAME, account.as_str())
}

/// Keeps the passphrase of a profile's private key.
pub fn set_key_passphrase(config_id: &str, passphrase: &str) -> (reply: Result<(), String>)
    ensures
        keeping_gives(
            SERVICE_NAME@,
            account_of(config_id@, SecretKind::KeyPassphrase),
            passphrase@,
            done_reply(reply),
        ),
{
    let account = entry_account(config_id, SecretKind::KeyPassphrase);
    keep(SERVICE_NAME, account.as_str(), passphrase)
}

/// The passphrase of a profile's private key.
pub fn get_key_passphrase(config_id: &str) -> (reply: Result<String, String>)
    ensures
        asking_gives(
            SERVICE_NAME@,
            account_of(config_id@, SecretKind::KeyPassphrase),
            read_reply(reply),
        ),
{
    let account = entry_account(config_id, SecretKind::KeyPassphrase);
    ask(SERVICE_NAME, account.as_str())
}

/// What came of deleting the secrets of a profile.
#[derive(Debug)]
pub struct DeletedCredentials {
    pub password: Result<(), String>,
    pub key_passphrase: Result<(), String>,
}

/// Deletes the secrets of a profile, the second whatever came of the first.
pub fn delete_credentials(config_id: &str) -> (deleted: DeletedCredentials)
    ensures
        deleting_gives(
            SERVICE_NAME@,
            account_of(config_id@, SecretKind::Password),
            done_reply(deleted.password),
        ),
        deleting_gives(
            SERVICE_NAME@,
            account_of(config_id@, SecretKind::KeyPassphrase),
            done_reply(deleted.key_passphrase),
        ),
{
    let password_account = entry_account(config_id, SecretKind::Password);
    let password = delete(SERVICE_NAME, password_account.as_str());
    let passphrase_account = entry_account(config_id, SecretKind::KeyPassphrase);
    let key_passphrase = delete(SERVICE_NAME, passphrase_account.as_str());
    DeletedCredentials { password, key_passphrase }
}

/// An answer to keeping a secret of a profile, if there is one to keep; without
/// one there is nothing that can fail.
pub open spec fn kept_as(
    config_id: Seq<char>,
    kind: SecretKind,
    secret: Option<Seq<char>>,
    reply: Result<(), Seq<char>>,
) -> bool {
    match secret {
        Some(secret) => keeping_gives(SERVICE_NAME@, account_of(config_id, kind), secret, reply),
        None => reply is Ok,
    }
}

/// Keeps the secrets that were entered with a profile: the password first, then
/// the passphrase. The first that cannot be kept ends it.
pub fn keep_secrets(plan: &SavePlan) -> (reply: Result<(), String>)
    ensures
        ({
            let id = plan.config.id@;
            let password = config::opt_text(plan.password);
            let passphrase = config::opt_text(plan.key_passphrase);
            ||| reply is Err && kept_as(id, SecretKind::Password, password, done_reply(reply))
            ||| kept_as(id, SecretKind::Password, password, Ok(())) && kept_as(
                id,
                SecretKind::KeyPassphrase,
                passphrase,
                done_reply(reply),
            )
        }),
        plan.password is None && plan.key_passphrase is None ==> reply is Ok,
{
    match &plan.password {
        Some(password) => {
            let reply = set_password(plan.config.id.as_str(), password.as_str());
            if reply.is_err() {
                return reply;
            }
        },
        None => {},
    }
    match &plan.key_passphrase {
        Some(passphrase) => set_key_passphrase(plan.config.id.as_str(), passphrase.as_str()),
        None => Ok(()),
    }
}

/// A profile's two secrets are kept under accounts of their own, and no account
/// is shared by two profiles.
pub proof fn law_accounts_differ(
    config_id: Seq<char>,
    kind: SecretKind,
    other_id: Seq<char>,
    other_kind: SecretKind,
)
    requires
        account_of(config_id, kind) == account_of(other_id, other_kind),
    ensures
        config_id == other_id,
        kind == other_kind,
{
    reveal_strlit(":");
    reveal_strlit("password");
    reveal_strlit("keypass");
    let a = account_of(config_id, kind);
    let b = account_of(other_id, other_kind);
    assert(a.last() == kind_word(kind).last());
    assert(b.last() == kind_word(other_kind).last());
    assert(config_id == a.take(config_id.len() as int));
    assert(other_id == b.take(other_id.len() as int));
}

/// The account of a secret is the id of the profile, a colon and a word: `password`
/// for the password and `keypass` for the passphrase of the key.
pub proof fn law_account_names(config_id: Seq<char>)
    ensures
        account_of(config_id, SecretKind::Password) == config_id + ":password"@,
        account_of(config_id, SecretKind::KeyPassphrase) == config_id + ":keypass"@,
        SERVICE_NAME@ == "com.zhengwei.wormhole"@,
{
    reveal_strlit(":");
    reveal_strlit("password");
    reveal_strlit("keypass");
    reveal_strlit(":password");
    reveal_strlit(":keypass");
    assert(account_of(config_id, SecretKind::Password) =~= config_id + ":password"@);
    assert(account_of(config_id, SecretKind::KeyPassphrase) =~= config_id + ":keypass"@);
}

/// A password that is kept, asked for or deleted goes by one and the same service
/// and account, and so does a passphrase, by another.
pub proof fn law_secrets_are_asked_for_where_they_are_kept(
    config_id: &str,
    password: &str,
    passphrase: &str,
    replies: (Result<(), String>, Result<String, String>, Result<(), String>, Result<
        String,
        String,
    >),
    deleted: DeletedCredentials,
)
    requires
        call_ensures(set_password, (config_id, password), replies.0),
        call_ensures(get_password, (config_id,), replies.1),
        call_ensures(set_key_passphrase, (config_id, passphrase), replies.2),
        call_ensures(get_key_passphrase, (config_id,), replies.3),
        call_ensures(delete_credentials, (config_id,), deleted),
    ensures
        ({
            let service = "com.zhengwei.wormhole"@;
            let first = config_id@ + ":password"@;
            let second = config_id@ + ":keypass"@;
            &&& keeping_gives(service, first, password@, done_reply(replies.0))
            &&& asking_gives(service, first, read_reply(replies.1))
            &&& keeping_gives(service, second, passphrase@, done_reply(replies.2))
            &&& asking_gives(service, second, read_reply(replies.3))
            &&& deleting_gives(service, first, done_reply(deleted.password))
            &&& deleting_gives(service, second, done_reply(deleted.key_passphrase))
        }),
{
    law_account_names(config_id@);
}

} // verus!
