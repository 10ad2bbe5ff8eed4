//! What holds of the list of known servers as a whole.
use vstd::prelude::*;
use crate::config::{AuthProfile, SshConfig};
use crate::http;
use crate::http_laws;
use crate::known_hosts;
use crate::known_hosts::{
    known_hosts_line_matches, reset_known_host_for_config, verify_known_host, HostKeyCheck,
    HostKeyVerdict, VerdictModel,
};
use crate::service;
use crate::service::ServiceFailureKind;
use crate::text;
use crate::text_laws;

verus! {

/// No line holds a line feed.
pub open spec fn unbroken(lines: Seq<Seq<char>>) -> bool {
    forall|i: int| 0 <= i < lines.len() ==> !(#[trigger] lines[i]).contains('\n')
}

proof fn lemma_lines_unbroken(s: Seq<char>)
    ensures
        unbroken(text::lines(s)),
    decreases s.len(),
{
    let all = text::lines(s);
    if s.len() > 0 {
        text::lemma_find_from(s, seq!['\n'], 0);
        match text::find(s, seq!['\n']) {
            Some(k) => {
                let line = text::strip_cr(s.take(k));
                let rest = text::lines(s.skip(k + 1));
                lemma_lines_unbroken(s.skip(k + 1));
                assert(!line.contains('\n')) by {
                    if line.contains('\n') {
                        let j = line.index_of('\n');
                        assert(s[j] == '\n');
                        assert(s.subrange(j, j + 1) == seq!['\n']);
                        assert(text::occurs_at(s, seq!['\n'], j));
                    }
                }
                assert forall|i: int| 0 <= i < all.len() implies !(#[trigger] all[i]).contains(
                    '\n',
                ) by {
                    if i > 0 {
                        assert(all[i] == rest[i - 1]);
                    }
                }
            },
            None => {
                assert(!s.contains('\n')) by {
                    if s.contains('\n') {
                        let j = s.index_of('\n');
                        assert(s.subrange(j, j + 1) == seq!['\n']);
                        assert(text::occurs_at(s, seq!['\n'], j));
                    }
                }
            },
        }
    }
}

proof fn lemma_ended_lines_front(lines: Seq<Seq<char>>)
    requires
        lines.len() > 0,
    ensures
        known_hosts::ended_lines(lines) == lines[0] + seq!['\n'] + known_hosts::ended_lines(
            lines.skip(1),
        ),
    decreases lines.len(),
{
    if lines.len() == 1 {
        assert(lines.drop_last() == Seq::<Seq<char>>::empty());
        assert(lines.skip(1) == Seq::<Seq<char>>::empty());
        assert(known_hosts::ended_lines(lines.drop_last()) == Seq::<char>::empty());
        assert(known_hosts::ended_lines(lines) =~= lines[0] + seq!['\n']
            + known_hosts::ended_lines(lines.skip(1)));
    } else {
        lemma_ended_lines_front(lines.drop_last());
        assert(lines.drop_last().skip(1) == lines.skip(1).drop_last());
        assert(lines.skip(1).last() == lines.last());
        assert(known_hosts::ended_lines(lines) =~= lines[0] + seq!['\n']
            + known_hosts::ended_lines(lines.skip(1)));
    }
}

/// Lines that are written down are read back as they were, but for a carriage
/// return at the end of one.
pub proof fn law_written_lines_are_read_back(lines: Seq<Seq<char>>)
    requires
        unbroken(lines),
    ensures
        text::lines(known_hosts::ended_lines(lines)) == lines.map_values(
            |line: Seq<char>| text::strip_cr(line),
        ),
    decreases lines.len(),
{
    let stripped = |line: Seq<char>| text::strip_cr(line);
    if lines.len() == 0 {
        assert(text::lines(known_hosts::ended_lines(lines)) =~= lines.map_values(stripped));
    } else {
        let rest = lines.skip(1);
        let tail = known_hosts::ended_lines(rest);
        let s = known_hosts::ended_lines(lines);
        lemma_ended_lines_front(lines);
        assert forall|i: int| 0 <= i < rest.len() implies !(#[trigger] rest[i]).contains('\n') by {
            assert(rest[i] == lines[i + 1]);
        }
        law_written_lines_are_read_back(rest);
        text_laws::lemma_split_once_char(lines[0], '\n', tail);
        text::lemma_find_from(s, seq!['\n'], 0);
        let k = text::find(s, seq!['\n'])->0;
        assert(s.take(k) == lines[0]);
        assert(s.skip(k + 1) == tail);
        assert(text::lines(s) =~= lines.map_values(stripped)) by {
            assert(text::lines(s) == seq![text::strip_cr(lines[0])] + text::lines(tail));
        }
    }
}

proof fn lemma_word_len_before_space(s: Seq<char>, c: char)
    requires
        text::is_whitespace(c),
    ensures
        text::word_len(s.push(c)) == text::word_len(s),
        text::word_len(s) <= s.len(),
    decreases s.len(),
{
    if s.len() > 0 {
        assert(s.push(c).skip(1) == s.skip(1).push(c));
        lemma_word_len_before_space(s.skip(1), c);
    }
}

proof fn lemma_first_word_before_space(s: Seq<char>, c: char)
    requires
        text::is_whitespace(c),
    ensures
        text::first_word(s.push(c)) == text::first_word(s),
    decreases s.len(),
{
    if s.len() == 0 {
        let empty = Seq::<char>::empty();
        assert(s.push(c).skip(1) == empty);
        assert(text::trim_start(empty) == empty);
        assert(text::trim_start(s.push(c)) == empty);
        assert(text::trim_start(s) == empty);
    } else if text::is_whitespace(s[0]) {
        assert(s.push(c).skip(1) == s.skip(1).push(c));
        lemma_first_word_before_space(s.skip(1), c);
    } else {
        lemma_word_len_before_space(s, c);
        let n = text::word_len(s) as int;
        assert(s.push(c).take(n) == s.take(n));
    }
}

/// A carriage return at the end of a line does not change which servers it is
/// about.
pub proof fn law_carriage_return_does_not_matter(line: Seq<char>, target: Seq<char>)
    ensures
        known_hosts::line_matches(text::strip_cr(line), target) == known_hosts::line_matches(
            line,
            target,
        ),
{
    if line.len() > 0 && line.last() == '\r' {
        assert(line == line.drop_last().push('\r'));
        lemma_first_word_before_space(line.drop_last(), '\r');
    }
}

proof fn lemma_others(lines: Seq<Seq<char>>, target: Seq<char>)
    ensures
        forall|i: int|
            0 <= i < known_hosts::other_lines(lines, target).len()
                ==> !known_hosts::line_matches(
                #[trigger] known_hosts::other_lines(lines, target)[i],
                target,
            ) && lines.contains(known_hosts::other_lines(lines, target)[i]),
        known_hosts::other_lines(lines, target).len() <= lines.len(),
        known_hosts::other_lines(lines, target).len() == lines.len() <==> (forall|i: int|
            0 <= i < lines.len() ==> !known_hosts::line_matches(#[trigger] lines[i], target)),
    decreases lines.len(),
{
    let keep = |line: Seq<char>| !known_hosts::line_matches(line, target);
    let others = known_hosts::other_lines(lines, target);
    reveal(Seq::filter);
    if lines.len() > 0 {
        let fewer = lines.drop_last();
        let before = known_hosts::other_lines(fewer, target);
        lemma_others(fewer, target);
        assert forall|i: int| 0 <= i < others.len() implies !known_hosts::line_matches(
            #[trigger] others[i],
            target,
        ) && lines.contains(others[i]) by {
            if i < before.len() {
                assert(others[i] == before[i]);
                assert(fewer.contains(before[i]));
                assert(lines[fewer.index_of(before[i])] == before[i]);
            } else {
                assert(others[i] == lines.last());
                assert(lines[lines.len() - 1] == lines.last());
            }
        }
        assert forall|i: int| 0 <= i < fewer.len() implies fewer[i] == lines[i] by {
        }
        if forall|i: int|
            0 <= i < lines.len() ==> !known_hosts::line_matches(#[trigger] lines[i], target) {
            assert forall|i: int| 0 <= i < fewer.len() implies !known_hosts::line_matches(
                #[trigger] fewer[i],
                target,
            ) by {
                assert(fewer[i] == lines[i]);
            }
            assert(!known_hosts::line_matches(lines[lines.len() - 1], target));
        }
        if others.len() == lines.len() {
            assert forall|i: int| 0 <= i < lines.len() implies !known_hosts::line_matches(
                #[trigger] lines[i],
                target,
            ) by {
                if i < fewer.len() {
                    assert(fewer[i] == lines[i]);
                }
            }
        }
    }
}

proof fn lemma_lines_of_list(lines: Seq<Seq<char>>)
    requires
        unbroken(lines),
    ensures
        ({
            let read = text::lines(known_hosts::list_of(lines));
            if lines.len() == 1 && lines[0].len() == 0 {
                read.len() == 0
            } else {
                read == lines.map_values(|line: Seq<char>| text::strip_cr(line))
            }
        }),
{
    law_written_lines_are_read_back(lines);
}

/// Once a server was forgotten, no line of the list is about it, and forgetting it
/// again changes nothing.
pub proof fn law_reset_forgets(contents: Seq<char>, target: Seq<char>)
    ensures
        match known_hosts::reset(contents, target) {
            Some(next) => {
                &&& forall|i: int|
                    0 <= i < text::lines(next).len() ==> !known_hosts::line_matches(
                        #[trigger] text::lines(next)[i],
                        target,
                    )
                &&& known_hosts::reset(next, target) is None
            },
            None => forall|i: int|
                0 <= i < text::lines(contents).len() ==> !known_hosts::line_matches(
                    #[trigger] text::lines(contents)[i],
                    target,
                ),
        },
{
    let lines = text::lines(contents);
    let others = known_hosts::other_lines(lines, target);
    lemma_others(lines, target);
    lemma_lines_unbroken(contents);
    match known_hosts::reset(contents, target) {
        Some(next) => {
            assert forall|i: int| 0 <= i < others.len() implies !(#[trigger] others[i]).contains(
                '\n',
            ) by {
                assert(lines.contains(others[i]));
                let j = lines.index_of(others[i]);
                assert(lines[j] == others[i]);
            }
            lemma_lines_of_list(others);
            let read = text::lines(next);
            assert forall|i: int| 0 <= i < read.len() implies !known_hosts::line_matches(
                #[trigger] read[i],
                target,
            ) by {
                law_carriage_return_does_not_matter(others[i], target);
            }
            lemma_others(read, target);
        },
        None => {},
    }
}

/// Forgetting one server keeps what the list says of others: a line that is not
/// about it is still there, but for a carriage return at its end. Only an empty
/// line can be lost.
pub proof fn law_reset_keeps_others(contents: Seq<char>, target: Seq<char>, line: Seq<char>)
    requires
        known_hosts::reset(contents, target) is Some,
        text::lines(contents).contains(line),
        !known_hosts::line_matches(line, target),
        line.len() > 0,
    ensures
        text::lines(known_hosts::reset(contents, target)->0).contains(text::strip_cr(line)),
{
    let lines = text::lines(contents);
    let others = known_hosts::other_lines(lines, target);
    lemma_others(lines, target);
    lemma_lines_unbroken(contents);
    assert forall|i: int| 0 <= i < others.len() implies !(#[trigger] others[i]).contains('\n') by {
        assert(lines.contains(others[i]));
        let j = lines.index_of(others[i]);
        assert(lines[j] == others[i]);
    }
    lemma_lines_of_list(others);
    lemma_kept(lines, target, line);
    let i = others.index_of(line);
    let read = text::lines(known_hosts::list_of(others));
    assert(read[i] == text::strip_cr(line));
}

proof fn lemma_kept(lines: Seq<Seq<char>>, target: Seq<char>, line: Seq<char>)
    requires
        lines.contains(line),
        !known_hosts::line_matches(line, target),
    ensures
        known_hosts::other_lines(lines, target).contains(line),
    decreases lines.len(),
{
    reveal(Seq::filter);
    let others = known_hosts::other_lines(lines, target);
    let fewer = lines.drop_last();
    let before = known_hosts::other_lines(fewer, target);
    let i = lines.index_of(line);
    if i < fewer.len() {
        assert(fewer[i] == line);
        lemma_kept(fewer, target, line);
        assert(others[before.index_of(line)] == line);
    } else {
        assert(others[others.len() - 1] == line);
    }
}

/// The list is never changed for a server that it does not mention.
pub proof fn law_unknown_server_changes_nothing(contents: Seq<char>, target: Seq<char>)
    requires
        forall|i: int|
            0 <= i < text::lines(contents).len() ==> !known_hosts::line_matches(
                #[trigger] text::lines(contents)[i],
                target,
            ),
    ensures
        known_hosts::reset(contents, target) is None,
{
    lemma_others(text::lines(contents), target);
}

/// A host that can stand in the list: a word without a comma.
pub open spec fn listable(host: Seq<char>) -> bool {
    host.len() > 0 && text_laws::unspaced(host) && !host.contains(',')
}

proof fn lemma_listed(host: Seq<char>, port: u16, key: Seq<char>, target: Seq<char>)
    requires
        listable(host),
    ensures
        known_hosts::line_matches(known_hosts::host_name(host, port) + " "@ + key, target)
            <==> target == known_hosts::host_name(host, port),
{
    let name = known_hosts::host_name(host, port);
    reveal_strlit(" ");
    reveal_strlit("[");
    reveal_strlit("]:");
    let digits = text::decimal(port as nat);
    text_laws::lemma_unspaced_decimal(port as nat);
    text_laws::lemma_decimal_has_no(port as nat, ',');
    assert(text_laws::unspaced("["@));
    assert(text_laws::unspaced("]:"@));
    text_laws::lemma_unspaced_join("["@, host);
    text_laws::lemma_unspaced_join("["@ + host, "]:"@);
    text_laws::lemma_unspaced_join("["@ + host + "]:"@, digits);
    assert(text_laws::unspaced(name));
    assert(!name.contains(',')) by {
        if port != known_hosts::DEFAULT_SSH_PORT && name.contains(',') {
            let i = name.index_of(',');
            let n = host.len() as int;
            if 1 <= i < 1 + n {
                assert(host[i - 1] == ',');
            } else if i >= n + 3 {
                assert(digits[i - n - 3] == ',');
            }
        }
    }
    assert(name + " "@ + key == name + (" "@ + key));
    text_laws::lemma_first_word(name, " "@ + key);
    text::lemma_find_from(name, seq![','], 0);
    assert(text::find(name, seq![',']) is None) by {
        if text::find(name, seq![',']) is Some {
            let k = text::find(name, seq![','])->0;
            assert(name.subrange(k, k + 1)[0] == ',');
            assert(name[k] == ',');
        }
    }
    assert(text::split(name, seq![',']) == seq![name]);
    assert(seq![name][0] == name);
    if seq![name].contains(target) {
        assert(seq![name][seq![name].index_of(target)] == target);
    }
}

/// The line under which a server is remembered is one that forgetting it removes,
/// as long as its host is a word without commas.
pub proof fn law_remembered_server_is_forgotten(host: Seq<char>, port: u16, key: Seq<char>)
    requires
        listable(host),
    ensures
        known_hosts::line_matches(
            known_hosts::host_name(host, port) + " "@ + key,
            known_hosts::host_name(host, port),
        ),
{
    lemma_listed(host, port, key, known_hosts::host_name(host, port));
}

/// A host that cannot be taken for a host with a port: one on the usual port that
/// begins with a bracket could.
pub open spec fn plain(host: Seq<char>, port: u16) -> bool {
    port == known_hosts::DEFAULT_SSH_PORT && host.len() > 0 ==> host[0] != '['
}

/// Two servers that are not the same stand in the list under different names, as
/// long as neither is a host on the usual port that begins with a bracket.
pub proof fn law_names_differ(host: Seq<char>, port: u16, other: Seq<char>, other_port: u16)
    requires
        plain(host, port),
        plain(other, other_port),
        known_hosts::host_name(host, port) == known_hosts::host_name(other, other_port),
    ensures
        host == other,
        port == other_port,
{
    reveal_strlit("[");
    reveal_strlit("]:");
    let usual = known_hosts::DEFAULT_SSH_PORT;
    let a = known_hosts::host_name(host, port);
    let b = known_hosts::host_name(other, other_port);
    if port != usual {
        assert(a[0] == '[');
    }
    if other_port != usual {
        assert(b[0] == '[');
    }
    if port != usual && other_port != usual {
        let x = text::decimal(port as nat);
        let y = text::decimal(other_port as nat);
        let left = "["@ + host + seq![']'];
        let right = "["@ + other + seq![']'];
        assert(a == left + seq![':'] + x);
        assert(b == right + seq![':'] + y);
        text_laws::lemma_decimal_has_no(port as nat, ':');
        text_laws::lemma_decimal_has_no(other_port as nat, ':');
        text_laws::lemma_split_last(left, ':', x);
        text_laws::lemma_split_last(right, ':', y);
        assert(left.subrange(1, left.len() - 1) == host);
        assert(right.subrange(1, right.len() - 1) == other);
        text_laws::law_port_round_trip(port);
        text_laws::law_port_round_trip(other_port);
    }
}

/// The line under which a server is remembered is about no other server, so that
/// forgetting another leaves it alone. The remembered host is a word without
/// commas, and neither server is a host on the usual port that begins with a
/// bracket.
pub proof fn law_line_is_about_one_server(
    host: Seq<char>,
    port: u16,
    key: Seq<char>,
    other: Seq<char>,
    other_port: u16,
)
    requires
        listable(host),
        plain(host, port),
        plain(other, other_port),
        host != other || port != other_port,
    ensures
        !known_hosts::line_matches(
            known_hosts::host_name(host, port) + " "@ + key,
            known_hosts::host_name(other, other_port),
        ),
{
    lemma_listed(host, port, key, known_hosts::host_name(other, other_port));
    if known_hosts::host_name(other, other_port) == known_hosts::host_name(host, port) {
        law_names_differ(host, port, other, other_port);
    }
}

/// A server refused for its key is reported as a host key mismatch, whatever the
/// profile: never as a failure to log in.
pub proof fn law_mismatch_is_reported_as_such(profile: AuthProfile)
    ensures
        service::failure_kind(profile, known_hosts::mismatch_message())
            == ServiceFailureKind::HostKeyMismatch,
{
    reveal_strlit(
        "SSH host key mismatch in Wormhole known_hosts. Verify the server fingerprint before resetting this host key.",
    );
    reveal_strlit("host key mismatch");
    let lowered = text::lower(known_hosts::mismatch_message());
    assert(lowered.subrange(4, 21) =~= "host key mismatch"@);
    assert(text::occurs_at(lowered, "host key mismatch"@, 4));
}

/// A server on port 22 stands in the list by its host alone, and one on any other
/// port by its host in brackets, a colon and the port.
pub proof fn law_names_of_servers(host: Seq<char>, port: u16)
    ensures
        port == 22 ==> known_hosts::host_name(host, port) == host,
        port != 22 ==> known_hosts::host_name(host, port) == "["@ + host + "]:"@ + text::decimal(
            port as nat,
        ),
{
}

/// The host and the port of a server can be read from the name under which it
/// stands in the list, where 22 is the port that goes without saying.
pub proof fn law_name_tells_host_and_port(host: Seq<char>, port: u16)
    requires
        port == 22 ==> !host.contains(':') && (host.len() > 0 ==> host[0] != '['),
        port != 22 ==> !host.contains(']'),
    ensures
        http::host_port(known_hosts::host_name(host, port), 22) == Ok::<
            (Seq<char>, u16),
            Seq<char>,
        >((host, port)),
{
    if port == 22 {
        http_laws::law_host_without_port(host, Seq::<char>::empty(), 22);
    } else {
        http_laws::law_bracketed_host_port(host, port, 22);
    }
}

/// A line is about exactly the servers that its first word names, with commas
/// between the names: about each of them, wherever it stands, and about none that
/// is only named later in the line.
pub proof fn law_line_is_about_the_servers_it_names(
    names: Seq<Seq<char>>,
    rest: Seq<char>,
    target: Seq<char>,
)
    requires
        names.len() > 0,
        forall|i: int|
            0 <= i < names.len() ==> !(#[trigger] names[i]).contains(',') && text_laws::unspaced(
                names[i],
            ),
        text_laws::joined(names, seq![',']).len() > 0,
        rest.len() > 0 ==> text::is_whitespace(rest[0]),
    ensures
        known_hosts::line_matches(text_laws::joined(names, seq![',']) + rest, target)
            <==> names.contains(target),
        known_hosts::line_matches(
            " "@ + (text_laws::joined(names, seq![',']) + rest),
            target,
        ) <==> names.contains(target),
{
    reveal_strlit(" ");
    assert(" "@ =~= seq![' ']);
    let word = text_laws::joined(names, seq![',']);
    lemma_joined_unspaced(names);
    text_laws::law_joined_pieces_are_got_back(names, ',');
    text_laws::lemma_first_word(word, rest);
}

proof fn lemma_joined_unspaced(names: Seq<Seq<char>>)
    requires
        names.len() > 0,
        forall|i: int| 0 <= i < names.len() ==> text_laws::unspaced(#[trigger] names[i]),
    ensures
        text_laws::unspaced(text_laws::joined(names, seq![','])),
    decreases names.len(),
{
    let comma = seq![','];
    if names.len() > 1 {
        let rest = names.skip(1);
        assert forall|i: int| 0 <= i < rest.len() implies text_laws::unspaced(
            #[trigger] rest[i],
        ) by {
            assert(rest[i] == names[i + 1]);
        }
        lemma_joined_unspaced(rest);
        assert(text_laws::unspaced(names[0]));
        assert(text_laws::unspaced(comma));
        text_laws::lemma_unspaced_join(names[0], comma);
        text_laws::lemma_unspaced_join(names[0] + comma, text_laws::joined(rest, comma));
    }
}

/// An empty line, and one of whitespace, is about no server.
pub proof fn law_blank_line_is_about_no_server(line: Seq<char>, target: Seq<char>)
    requires
        text_laws::all_space(line),
    ensures
        !known_hosts::line_matches(line, target),
{
    text_laws::law_first_word(line);
}

/// The lines that stay when a server is forgotten are all that are not about it, in
/// their order; of what is left only a single empty line is lost.
pub proof fn law_reset_keeps_the_order(contents: Seq<char>, target: Seq<char>)
    requires
        known_hosts::reset(contents, target) is Some,
    ensures
        ({
            let left = text::lines(contents).filter(
                |line: Seq<char>| !known_hosts::line_matches(line, target),
            );
            let read = text::lines(known_hosts::reset(contents, target)->0);
            if left.len() == 1 && left[0].len() == 0 {
                read.len() == 0
            } else {
                read == left.map_values(|line: Seq<char>| text::strip_cr(line))
            }
        }),
{
    let lines = text::lines(contents);
    let others = known_hosts::other_lines(lines, target);
    lemma_others(lines, target);
    lemma_lines_unbroken(contents);
    assert forall|i: int| 0 <= i < others.len() implies !(#[trigger] others[i]).contains('\n') by {
        assert(lines.contains(others[i]));
        let j = lines.index_of(others[i]);
        assert(lines[j] == others[i]);
    }
    lemma_lines_of_list(others);
}

/// The list is rewritten exactly where one of its lines is about the server.
pub proof fn law_reset_of_a_listed_server(contents: Seq<char>, target: Seq<char>, i: int)
    requires
        0 <= i < text::lines(contents).len(),
        known_hosts::line_matches(text::lines(contents)[i], target),
    ensures
        known_hosts::reset(contents, target) is Some,
{
    lemma_others(text::lines(contents), target);
}

/// A connection goes on at once only where the server shows the key by which it is
/// known; a server that is not known is remembered under its own name; and in all
/// other cases the connection ends.
pub proof fn law_verdicts(host: Seq<char>, port: u16, check: HostKeyCheck)
    ensures
        ({
            let result = known_hosts::verdict(host, port, check);
            &&& result is Trusted <==> check == HostKeyCheck::Match
            &&& result is Remember <==> check == HostKeyCheck::NotFound
            &&& result matches VerdictModel::Remember(name) ==> name == known_hosts::host_name(
                host,
                port,
            )
            &&& check == HostKeyCheck::NoKey ==> result == VerdictModel::Refused(
                "SSH server did not provide a host key."@,
            )
            &&& check == HostKeyCheck::Failure ==> result == VerdictModel::Refused(
                "Could not verify SSH host key."@,
            )
            &&& check == HostKeyCheck::Mismatch ==> result == VerdictModel::Refused(
                "SSH host key mismatch in Wormhole known_hosts. Verify the server fingerprint before resetting this host key."@,
            )
        }),
{
}

/// Of a profile it is the host and the port that count: its server is remembered
/// and forgotten under one and the same name.
pub proof fn law_profile_is_remembered_and_forgotten_by_name(
    config: SshConfig,
    result: HostKeyVerdict,
    contents: &str,
    next: Option<String>,
)
    requires
        call_ensures(verify_known_host, (&config, HostKeyCheck::NotFound), result),
        call_ensures(reset_known_host_for_config, (contents, &config), next),
    ensures
        ({
            let name = if config.port == 22 {
                config.host@
            } else {
                "["@ + config.host@ + "]:"@ + text::decimal(config.port as nat)
            };
            &&& result@ == VerdictModel::Remember(name)
            &&& next is None <==> (forall|i: int|
                0 <= i < text::lines(contents@).len() ==> !known_hosts::line_matches(
                    #[trigger] text::lines(contents@)[i],
                    name,
                ))
        }),
{
    lemma_others(text::lines(contents@), known_hosts::host_name(config.host@, config.port));
}

/// A list of lines, unless there is none or a single empty one, is the lines with a
/// line feed between each two and one at the end, and nothing else.
pub proof fn law_list_is_its_lines(lines: Seq<Seq<char>>)
    ensures
        lines.len() == 0 || (lines.len() == 1 && lines[0].len() == 0) ==> known_hosts::list_of(
            lines,
        ).len() == 0,
        lines.len() > 1 || (lines.len() == 1 && lines[0].len() > 0) ==> known_hosts::list_of(lines)
            == text_laws::joined(lines, seq!['\n']) + seq!['\n'],
{
    if lines.len() > 0 {
        lemma_ended_lines_joined(lines);
    }
}

proof fn lemma_ended_lines_joined(lines: Seq<Seq<char>>)
    requires
        lines.len() > 0,
    ensures
        known_hosts::ended_lines(lines) == text_laws::joined(lines, seq!['\n']) + seq!['\n'],
    decreases lines.len(),
{
    let end = seq!['\n'];
    let rest = lines.skip(1);
    lemma_ended_lines_front(lines);
    if lines.len() == 1 {
        assert(rest =~= Seq::<Seq<char>>::empty());
        assert(known_hosts::ended_lines(rest) =~= Seq::<char>::empty());
    } else {
        lemma_ended_lines_joined(rest);
    }
    assert(known_hosts::ended_lines(lines) =~= text_laws::joined(lines, end) + end);
}

/// Asked about a line, the answer is whether its first word names the server.
pub proof fn law_line_is_asked_about(line: &str, target: &str, yes: bool)
    requires
        call_ensures(known_hosts_line_matches, (line, target), yes),
    ensures
        ({
            let word = text::first_word(line@);
            yes <==> word.len() > 0 && exists|i: int|
                0 <= i < text::split(word, seq![',']).len() && #[trigger] text::split(
                    word,
                    seq![','],
                )[i] == target@
        }),
{
    let names = text::split(text::first_word(line@), seq![',']);
    if names.contains(target@) {
        assert(names[names.index_of(target@)] == target@);
    }
}

} // verus!
