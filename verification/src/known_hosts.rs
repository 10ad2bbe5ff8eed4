//! The list of SSH servers whose keys are known.
use vstd::prelude::*;
use crate::config::SshConfig;
use crate::text;
use crate::text::{from_chars, line_slices, number, pieces, same, to_chars, word};

verus! {

broadcast use vstd::string::group_string_axioms;

/// The port on which SSH servers usually listen.
pub const DEFAULT_SSH_PORT: u16 = 22;

/// The name under which a server stands in the list: the host, and the port too
/// where it is not the usual one.
pub open spec fn host_name(host: Seq<char>, port: u16) -> Seq<char> {
    if port == DEFAULT_SSH_PORT {
        host
    } else {
        "["@ + host + "]:"@ + text::decimal(port as nat)
    }
}

/// The name under which a server stands in the list.
pub fn known_host_name(host: &str, port: u16) -> (name: String)
    ensures
        name@ == host_name(host@, port),
{
    if port == DEFAULT_SSH_PORT {
        host.to_string()
    } else {
        let mut name = "[".to_string();
        let digits = number(port as u64);
        name.append(host);
        name.append("]:");
        name.append(digits.as_str());
        name
    }
}

/// A line of the list is about a server: its first word names it, by itself or
/// among others that commas separate.
pub open spec fn line_matches(line: Seq<char>, target: Seq<char>) -> bool {
    text::first_word(line).len() > 0 && text::split(text::first_word(line), seq![',']).contains(
        target,
    )
}

fn slice_matches(line: &[char], target: &[char]) -> (yes: bool)
    ensures
        yes == line_matches(line@, target@),
{
    let (hosts, _) = word(line);
    if hosts.len() == 0 {
        return false;
    }
    let mut comma: Vec<char> = Vec::new();
    comma.push(',');
    assert(comma@ == seq![',']);
    let names = pieces(hosts, comma.as_slice());
    let ghost all = text::split(hosts@, seq![',']);
    let mut i: usize = 0;
    while i < names.len()
        invariant
            i <= names@.len(),
            text::texts(names@) == all,
            all == text::split(text::first_word(line@), seq![',']),
            text::first_word(line@).len() > 0,
            forall|j: int| 0 <= j < i ==> all[j] != target@,
        decreases names.len() - i,
    {
        if same(names[i], target) {
            assert(all[i as int] == target@);
            return true;
        }
        i = i + 1;
    }
    false
}

/// Whether a line of the list is about a server.
pub fn known_hosts_line_matches(line: &str, target: &str) -> (yes: bool)
    ensures
        yes == line_matches(line@, target@),
{
    let line = to_chars(line);
    let target = to_chars(target);
    slice_matches(line.as_slice(), target.as_slice())
}

/// The lines that are not about a server.
pub open spec fn other_lines(lines: Seq<Seq<char>>, target: Seq<char>) -> Seq<Seq<char>> {
    lines.filter(|line: Seq<char>| !line_matches(line, target))
}

/// Lines with a line feed after each.
pub open spec fn ended_lines(lines: Seq<Seq<char>>) -> Seq<char>
    decreases lines.len(),
{
    if lines.len() == 0 {
        Seq::empty()
    } else {
        ended_lines(lines.drop_last()) + lines.last().push('\n')
    }
}

/// The list made of some lines: each ends in a line feed, but a single empty line
/// leaves the list empty.
pub open spec fn list_of(lines: Seq<Seq<char>>) -> Seq<char> {
    if lines.len() == 1 && lines[0].len() == 0 {
        Seq::empty()
    } else {
        ended_lines(lines)
    }
}

/// The list without the lines about a server; none where there are no such lines,
/// and the list stays as it is.
pub open spec fn reset(contents: Seq<char>, target: Seq<char>) -> Option<Seq<char>> {
    let lines = text::lines(contents);
    let others = other_lines(lines, target);
    if others.len() == lines.len() {
        None
    } else {
        Some(list_of(others))
    }
}

/// Forgets the key of a profile's server: the list without the lines about it, or
/// none where it holds no such line.
pub fn reset_known_host_for_config(contents: &str, config: &SshConfig) -> (next: Option<String>)
    ensures
        match next {
            Some(next) => reset(contents@, host_name(config.host@, config.port)) == Some(next@),
            None => reset(contents@, host_name(config.host@, config.port)) is None,
        },
{
    let name = known_host_name(config.host.as_str(), config.port);
    let target = to_chars(name.as_str());
    let chars = to_chars(contents);
    let lines = line_slices(chars.as_slice());
    let ghost all = text::lines(contents@);
    let ghost keep = |line: Seq<char>| !line_matches(line, target@);

    let mut next: Vec<char> = Vec::new();
    let mut count: usize = 0;
    let mut i: usize = 0;
    proof {
        reveal(Seq::filter);
        assert(all.take(0).filter(keep) =~= Seq::<Seq<char>>::empty());
    }
    while i < lines.len()
        invariant
            i <= lines@.len(),
            count <= i,
            text::texts(lines@) == all,
            keep == (|line: Seq<char>| !line_matches(line, target@)),
            count == all.take(i as int).filter(keep).len(),
            next@ == ended_lines(all.take(i as int).filter(keep)),
        decreases lines.len() - i,
    {
        let ghost before = all.take(i as int).filter(keep);
        proof {
            reveal(Seq::filter);
            assert(all.take(i + 1).drop_last() == all.take(i as int));
            assert(all.take(i + 1).last() == lines@[i as int]@);
        }
        if !slice_matches(lines[i], target.as_slice()) {
            let ghost so_far = next@;
            let line = lines[i];
            let mut j: usize = 0;
            while j < line.len()
                invariant
                    j <= line@.len(),
                    next@ == so_far + line@.take(j as int),
                decreases line.len() - j,
            {
                next.push(line[j]);
                j = j + 1;
            }
            next.push('\n');
            count = count + 1;
            proof {
                assert(line@.take(j as int) == line@);
                assert(before.push(line@).drop_last() == before);
                assert(next@ == so_far + line@.push('\n'));
            }
        }
        i = i + 1;
    }
    assert(all.take(i as int) == all);
    let ghost others = all.filter(keep);
    assert(others == other_lines(all, target@));
    if count == lines.len() {
        return None;
    }
    proof {
        assert(ended_lines(Seq::<Seq<char>>::empty()) == Seq::<char>::empty());
        if others.len() == 1 {
            assert(others.drop_last() == Seq::<Seq<char>>::empty());
            assert(next@ == others[0].push('\n'));
        }
    }
    if count == 1 && next.len() == 1 {
        return Some(String::new());
    }
    Some(from_chars(next.as_slice()))
}

/// What the list says of the key that a server shows.
#[derive(Debug, Clone, Copy, PartialEq, Eq, Structural)]
pub enum HostKeyCheck {
    /// The server has shown no key.
    NoKey,
    /// The server is known by this key.
    Match,
    /// The server is not known.
    NotFound,
    /// The server is known by another key.
    Mismatch,
    /// The list could not be consulted.
    Failure,
}

/// What becomes of a connection to a server.
#[derive(Debug)]
pub enum HostKeyVerdict {
    /// It goes on.
    Trusted,
    /// The server's key is put on the list under this name; then it goes on.
    Remember(String),
    /// It ends, for this reason.
    Refused(String),
}

/// The content of a [`HostKeyVerdict`].
pub enum VerdictModel {
    Trusted,
    Remember(Seq<char>),
    Refused(Seq<char>),
}

impl View for HostKeyVerdict {
    type V = VerdictModel;

    open spec fn view(&self) -> VerdictModel {
        match self {
            HostKeyVerdict::Trusted => VerdictModel::Trusted,
            HostKeyVerdict::Remember(name) => VerdictModel::Remember(name@),
            HostKeyVerdict::Refused(message) => VerdictModel::Refused(message@),
        }
    }
}

/// Why a server with another key than the known one is refused.
pub open spec fn mismatch_message() -> Seq<char> {
    "SSH host key mismatch in Wormhole known_hosts. Verify the server fingerprint before resetting this host key."@
}

/// What becomes of a connection to a host and port.
pub open spec fn verdict(host: Seq<char>, port: u16, check: HostKeyCheck) -> VerdictModel {
    match check {
        HostKeyCheck::NoKey => VerdictModel::Refused("SSH server did not provide a host key."@),
        HostKeyCheck::Match => VerdictModel::Trusted,
        HostKeyCheck::NotFound => VerdictModel::Remember(host_name(host, port)),
        HostKeyCheck::Mismatch => VerdictModel::Refused(mismatch_message()),
        HostKeyCheck::Failure => VerdictModel::Refused("Could not verify SSH host key."@),
    }
}

/// What becomes of a connection to a profile's server: a key that is not known
/// yet is remembered, and any other than the known one is refused.
pub fn verify_known_host(config: &SshConfig, check: HostKeyCheck) -> (result: HostKeyVerdict)
    ensures
        result@ == verdict(config.host@, config.port, check),
{
    match check {
        HostKeyCheck::NoKey => HostKeyVerdict::Refused(
            "SSH server did not provide a host key.".to_string(),
        ),
        HostKeyCheck::Match => HostKeyVerdict::Trusted,
        HostKeyCheck::NotFound => HostKeyVerdict::Remember(
            known_host_name(config.host.as_str(), config.port),
        ),
        HostKeyCheck::Mismatch => HostKeyVerdict::Refused(
            "SSH host key mismatch in Wormhole known_hosts. Verify the server fingerprint before resetting this host key.".to_string(),
        ),
        HostKeyCheck::Failure => HostKeyVerdict::Refused(
            "Could not verify SSH host key.".to_string(),
        ),
    }
}

} // verus!
