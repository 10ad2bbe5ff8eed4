//! Choosing the file of a private key.
use vstd::prelude::*;
use vstd::utf8::*;
use crate::text;
use crate::text::{from_chars, to_chars, trimmed_str, utf8_lossy};
use crate::text_laws;

verus! {

broadcast use vstd::string::group_string_axioms;

/// A character as it stands in a quoted text of a script: a backslash comes before
/// a quote and before a backslash.
pub open spec fn escaped_char(c: char) -> Seq<char> {
    if c == '\\' || c == '"' {
        seq!['\\', c]
    } else {
        seq![c]
    }
}

/// A text as it stands in quotes in a script.
pub open spec fn escaped(s: Seq<char>) -> Seq<char>
    decreases s.len(),
{
    if s.len() == 0 {
        Seq::empty()
    } else {
        escaped(s.drop_last()) + escaped_char(s.last())
    }
}

/// The script that asks for a file, beginning in a directory.
pub open spec fn chooser_script(directory: Seq<char>) -> Seq<char> {
    "POSIX path of (choose file with prompt \"Select private key\" default location POSIX file \""@
        + escaped(directory) + "\")"@
}

/// The script that asks for the file of a private key, beginning in a directory.
pub fn key_chooser_script(directory: &str) -> (script: String)
    ensures
        script@ == chooser_script(directory@),
{
    let chars = to_chars(directory);
    let mut quoted: Vec<char> = Vec::new();
    let mut i: usize = 0;
    while i < chars.len()
        invariant
            i <= chars@.len(),
            quoted@ == escaped(chars@.take(i as int)),
        decreases chars.len() - i,
    {
        let c = chars[i];
        assert(chars@.take(i + 1).drop_last() == chars@.take(i as int));
        if c == '\\' || c == '"' {
            quoted.push('\\');
        }
        quoted.push(c);
        assert(quoted@ == escaped(chars@.take(i as int)) + escaped_char(c));
        i = i + 1;
    }
    assert(chars@.take(i as int) == chars@);
    let quoted = from_chars(quoted.as_slice());
    let mut script =
        "POSIX path of (choose file with prompt \"Select private key\" default location POSIX file \"".to_string();
    script.append(quoted.as_str());
    script.append("\")");
    script
}

/// The path that a script has answered with: without the space around it, and
/// none where nothing is left.
pub open spec fn answered(answer: Seq<char>) -> Option<Seq<char>> {
    if text::trim(answer).len() > 0 {
        Some(text::trim(answer))
    } else {
        None
    }
}

/// The path that a script has answered with.
pub fn answered_path(answer: &str) -> (path: Option<String>)
    ensures
        match path {
            Some(path) => answered(answer@) == Some(path@),
            None => answered(answer@) is None,
        },
{
    let path = trimmed_str(answer);
    if path.as_str().is_empty() {
        None
    } else {
        Some(path)
    }
}

/// The path that was chosen, from whether the script succeeded and from what it
/// has written; none where the choice was called off.
pub fn chosen_path(success: bool, output: &[u8]) -> (path: Option<String>)
    ensures
        match path {
            Some(path) => success && answered(text::lossy_text(output@)) == Some(path@),
            None => !success || answered(text::lossy_text(output@)) is None,
        },
        valid_utf8(output@) ==> match path {
            Some(path) => success && answered(decode_utf8(output@)) == Some(path@),
            None => !success || answered(decode_utf8(output@)) is None,
        },
{
    if success {
        let answer = utf8_lossy(output);
        answered_path(answer.as_str())
    } else {
        None
    }
}

/// The text that a quoted text of a script stands for.
pub open spec fn unescaped(s: Seq<char>) -> Seq<char>
    decreases s.len(),
{
    if s.len() == 0 {
        Seq::empty()
    } else if s[0] == '\\' && s.len() > 1 {
        seq![s[1]] + unescaped(s.skip(2))
    } else {
        seq![s[0]] + unescaped(s.skip(1))
    }
}

proof fn lemma_escaped_front(s: Seq<char>)
    requires
        s.len() > 0,
    ensures
        escaped(s) == escaped_char(s[0]) + escaped(s.skip(1)),
    decreases s.len(),
{
    if s.len() == 1 {
        assert(s.drop_last() == Seq::<char>::empty());
        assert(s.skip(1) == Seq::<char>::empty());
        assert(escaped(Seq::<char>::empty()) == Seq::<char>::empty());
        assert(escaped(s) =~= escaped_char(s[0]) + escaped(s.skip(1)));
    } else {
        lemma_escaped_front(s.drop_last());
        assert(s.drop_last().skip(1) == s.skip(1).drop_last());
        assert(s.skip(1).last() == s.last());
        assert(escaped(s) =~= escaped_char(s[0]) + escaped(s.skip(1)));
    }
}

/// A directory is named in the script as it is, whatever characters it holds.
pub proof fn law_quoted_directory_is_read_back(s: Seq<char>)
    ensures
        unescaped(escaped(s)) == s,
    decreases s.len(),
{
    if s.len() > 0 {
        let rest = escaped(s.skip(1));
        lemma_escaped_front(s);
        law_quoted_directory_is_read_back(s.skip(1));
        let all = escaped(s);
        if s[0] == '\\' || s[0] == '"' {
            assert(all[0] == '\\' && all[1] == s[0]);
            assert(all.skip(2) =~= rest);
        } else {
            assert(all[0] == s[0]);
            assert(all.skip(1) =~= rest);
        }
        assert(unescaped(all) =~= s);
    }
}

/// The place where a quoted text ends, counted from `from`: the first quote with
/// no backslash before it that stands for itself.
pub open spec fn quote_end(s: Seq<char>, from: int) -> int
    decreases s.len() + 1 - from,
{
    if from >= s.len() || s[from] == '"' {
        from
    } else if s[from] == '\\' {
        quote_end(s, from + 2)
    } else {
        quote_end(s, from + 1)
    }
}

/// No character of a directory ends the quotes around it.
pub proof fn law_directory_stays_in_its_quotes(s: Seq<char>, tail: Seq<char>)
    ensures
        quote_end(escaped(s) + seq!['"'] + tail, 0) == escaped(s).len(),
{
    lemma_quote_end(s, Seq::empty(), tail);
    assert(Seq::<char>::empty() + escaped(s) + seq!['"'] + tail =~= escaped(s) + seq!['"'] + tail);
}

proof fn lemma_quote_end(s: Seq<char>, before: Seq<char>, tail: Seq<char>)
    ensures
        quote_end(before + escaped(s) + seq!['"'] + tail, before.len() as int) == before.len()
            + escaped(s).len(),
    decreases s.len(),
{
    let all = before + escaped(s) + seq!['"'] + tail;
    let n = before.len() as int;
    if s.len() == 0 {
        assert(all[n] == '"');
    } else {
        lemma_escaped_front(s);
        let first = escaped_char(s[0]);
        lemma_quote_end(s.skip(1), before + first, tail);
        assert((before + first) + escaped(s.skip(1)) + seq!['"'] + tail =~= all);
        assert(all[n] == first[0]);
    }
}

/// The script asks for a file and names, between quotes at its end, a text that
/// stands for the very directory it is to begin in.
pub proof fn law_script_names_the_directory(directory: Seq<char>)
    ensures
        exists|quoted: Seq<char>|
            chooser_script(directory)
                == "POSIX path of (choose file with prompt \"Select private key\" default location POSIX file \""@
                + quoted + "\")"@ && #[trigger] unescaped(quoted) == directory,
{
    law_quoted_directory_is_read_back(directory);
    let quoted = escaped(directory);
    assert(unescaped(quoted) == directory);
}

/// A character is quoted by a backslash exactly where it is a quote or a backslash;
/// all others stand as they are, one after the other.
pub proof fn law_quoting(s: Seq<char>, t: Seq<char>, c: char)
    ensures
        escaped(s + t) == escaped(s) + escaped(t),
        c == '"' || c == '\\' ==> escaped(seq![c]) == seq!['\\', c],
        c != '"' && c != '\\' ==> escaped(seq![c]) == seq![c],
    decreases t.len(),
{
    let none = Seq::<char>::empty();
    assert(seq![c].drop_last() =~= none);
    assert(escaped(none) =~= none);
    assert(escaped(seq![c]) =~= escaped_char(c));
    if t.len() == 0 {
        assert(s + t =~= s);
        assert(escaped(s) + escaped(t) =~= escaped(s));
    } else {
        law_quoting(s, t.drop_last(), c);
        assert((s + t).drop_last() =~= s + t.drop_last());
        assert(escaped(s + t) =~= escaped(s) + escaped(t));
    }
}

/// The chosen path is the answer without the whitespace around it, and there is
/// none where the answer is all whitespace or the choice was called off.
pub proof fn law_chosen_path(answer: Seq<char>)
    ensures
        text_laws::all_space(answer) ==> answered(answer) is None,
        !text_laws::all_space(answer) ==> answered(answer) == Some(text::trim(answer)),
{
    text_laws::law_blank_is_all_whitespace(answer);
}

} // verus!
