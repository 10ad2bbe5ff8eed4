//! Text as sequences of characters.
use vstd::prelude::*;
use vstd::slice::slice_subrange;
use vstd::utf8::*;

verus! {

/// `String::push` appends one character at the end of the string.
pub assume_specification[ String::push ](s: &mut String, c: char)
    ensures
        final(s)@ == old(s)@.push(c),
;

/// The characters of a string, in order.
pub fn to_chars(s: &str) -> (chars: Vec<char>)
    ensures
        chars@ == s@,
{
    let mut chars: Vec<char> = Vec::new();
    for c in it: s.chars()
        invariant
            chars@ == it.seq().take(it.index()),
            it.seq() == s@,
    {
        chars.push(c);
    }
    chars
}

/// The string made of the given characters.
pub fn from_chars(chars: &[char]) -> (s: String)
    ensures
        s@ == chars@,
{
    let mut s = String::new();
    let mut i: usize = 0;
    while i < chars.len()
        invariant
            i <= chars@.len(),
            s@ == chars@.take(i as int),
        decreases chars.len() - i,
    {
        s.push(chars[i]);
        i = i + 1;
    }
    s
}

/// Characters with the Unicode property `White_Space`.
pub open spec fn is_whitespace(c: char) -> bool {
    let n = c as u32;
    ||| 0x9 <= n <= 0xd
    ||| n == 0x20 || n == 0x85 || n == 0xa0 || n == 0x1680
    ||| 0x2000 <= n <= 0x200a
    ||| n == 0x2028 || n == 0x2029 || n == 0x202f || n == 0x205f || n == 0x3000
}

/// `s` without its leading whitespace.
pub open spec fn trim_start(s: Seq<char>) -> Seq<char>
    decreases s.len(),
{
    if s.len() > 0 && is_whitespace(s[0]) {
        trim_start(s.skip(1))
    } else {
        s
    }
}

/// `s` without its trailing whitespace.
pub open spec fn trim_end(s: Seq<char>) -> Seq<char>
    decreases s.len(),
{
    if s.len() > 0 && is_whitespace(s.last()) {
        trim_end(s.drop_last())
    } else {
        s
    }
}

/// `s` without the whitespace at either end.
pub open spec fn trim(s: Seq<char>) -> Seq<char> {
    trim_end(trim_start(s))
}

/// An ASCII capital becomes its small letter; every other character stays.
pub open spec fn lower_char(c: char) -> char {
    if 'A' <= c && c <= 'Z' {
        ((c as u8) + 32) as char
    } else {
        c
    }
}

/// `s` with its ASCII capitals turned into small letters.
pub open spec fn lower(s: Seq<char>) -> Seq<char> {
    s.map_values(|c: char| lower_char(c))
}

/// `pat` stands in `s` from index `i` on.
pub open spec fn occurs_at<T>(s: Seq<T>, pat: Seq<T>, i: int) -> bool {
    &&& 0 <= i
    &&& i + pat.len() <= s.len()
    &&& s.subrange(i, i + pat.len()) == pat
}

/// `pat` stands somewhere in `s`.
pub open spec fn contains<T>(s: Seq<T>, pat: Seq<T>) -> bool {
    exists|i: int| occurs_at(s, pat, i)
}

/// The first index from `i` on at which `pat` stands in `s`.
pub open spec fn find_from<T>(s: Seq<T>, pat: Seq<T>, i: int) -> Option<int>
    decreases s.len() - i + 1,
{
    if i + pat.len() > s.len() {
        None
    } else if s.subrange(i, i + pat.len()) == pat {
        Some(i)
    } else {
        find_from(s, pat, i + 1)
    }
}

/// The first index at which `pat` stands in `s`.
pub open spec fn find<T>(s: Seq<T>, pat: Seq<T>) -> Option<int> {
    find_from(s, pat, 0)
}

/// The parts of `s` before and after the first `pat`.
pub open spec fn split_once(s: Seq<char>, pat: Seq<char>) -> Option<(Seq<char>, Seq<char>)> {
    match find(s, pat) {
        Some(i) => Some((s.take(i), s.skip(i + pat.len()))),
        None => None,
    }
}

/// The last index at which `c` stands in `s`.
pub open spec fn find_last(s: Seq<char>, c: char) -> Option<int>
    decreases s.len(),
{
    if s.len() == 0 {
        None
    } else if s.last() == c {
        Some(s.len() - 1)
    } else {
        find_last(s.drop_last(), c)
    }
}

/// The parts of `s` before and after the last `c`.
pub open spec fn split_last(s: Seq<char>, c: char) -> Option<(Seq<char>, Seq<char>)> {
    match find_last(s, c) {
        Some(i) => Some((s.take(i), s.skip(i + 1))),
        None => None,
    }
}

/// The pieces of `s` between the occurrences of `pat`.
pub open spec fn split(s: Seq<char>, pat: Seq<char>) -> Seq<Seq<char>>
    decreases s.len(),
{
    if pat.len() == 0 {
        seq![s]
    } else {
        match find(s, pat) {
            Some(i) => {
                proof {
                    lemma_find_from(s, pat, 0);
                }
                seq![s.take(i)] + split(s.skip(i + pat.len()), pat)
            },
            None => seq![s],
        }
    }
}

/// A line without the carriage return that ends it.
pub open spec fn strip_cr(line: Seq<char>) -> Seq<char> {
    if line.len() > 0 && line.last() == '\r' {
        line.drop_last()
    } else {
        line
    }
}

/// The lines of `s`: each ends at a line feed, which may follow a carriage
/// return; neither belongs to the line. What follows the last line feed is a
/// line too, unless it is empty.
pub open spec fn lines(s: Seq<char>) -> Seq<Seq<char>>
    decreases s.len(),
{
    if s.len() == 0 {
        Seq::empty()
    } else {
        match find(s, seq!['\n']) {
            Some(i) => {
                proof {
                    lemma_find_from(s, seq!['\n'], 0);
                }
                seq![strip_cr(s.take(i))] + lines(s.skip(i + 1))
            },
            None => seq![s],
        }
    }
}

/// The number of characters of `s` before its first whitespace.
pub open spec fn word_len(s: Seq<char>) -> nat
    decreases s.len(),
{
    if s.len() == 0 || is_whitespace(s[0]) {
        0
    } else {
        1 + word_len(s.skip(1))
    }
}

/// The first word of `s`, empty if there is none.
pub open spec fn first_word(s: Seq<char>) -> Seq<char> {
    trim_start(s).take(word_len(trim_start(s)) as int)
}

/// What follows the first word of `s`.
pub open spec fn after_first_word(s: Seq<char>) -> Seq<char> {
    trim_start(s).skip(word_len(trim_start(s)) as int)
}

/// `c` is an ASCII digit.
pub open spec fn is_digit(c: char) -> bool {
    '0' <= c && c <= '9'
}

/// The number that a row of digits writes in base ten.
pub open spec fn digits_value(s: Seq<char>) -> nat
    decreases s.len(),
{
    if s.len() == 0 {
        0
    } else {
        (digits_value(s.drop_last()) * 10 + (s.last() as u32 - '0' as u32)) as nat
    }
}

/// `n` written in base ten without leading zeros.
pub open spec fn decimal(n: nat) -> Seq<char>
    decreases n,
{
    if n < 10 {
        seq![(48 + n) as char]
    } else {
        decimal(n / 10).push((48 + n % 10) as char)
    }
}

/// The port that `s` writes: an optional `+`, then only digits, at least one,
/// with a value that fits.
pub open spec fn parse_port(s: Seq<char>) -> Option<u16> {
    let digits = without_plus(s);
    if digits.len() > 0 && all_digits(digits) && digits_value(digits) <= u16::MAX {
        Some(digits_value(digits) as u16)
    } else {
        None
    }
}

/// `s` without a `+` in front.
pub open spec fn without_plus(s: Seq<char>) -> Seq<char> {
    if s.len() > 0 && s[0] == '+' {
        s.skip(1)
    } else {
        s
    }
}

/// Every character of `s` is an ASCII digit.
pub open spec fn all_digits(s: Seq<char>) -> bool {
    forall|i: int| 0 <= i < s.len() ==> is_digit(#[trigger] s[i])
}

/// The texts of a row of slices.
pub open spec fn texts(parts: Seq<&[char]>) -> Seq<Seq<char>> {
    parts.map_values(|part: &[char]| part@)
}

/// `find_from` gives the first occurrence, and none only where there is none.
pub proof fn lemma_find_from<T>(s: Seq<T>, pat: Seq<T>, i: int)
    requires
        0 <= i,
    ensures
        match find_from(s, pat, i) {
            Some(k) => i <= k && occurs_at(s, pat, k) && (forall|j: int|
                i <= j < k ==> !occurs_at(s, pat, j)),
            None => forall|j: int| i <= j ==> !occurs_at(s, pat, j),
        },
    decreases s.len() - i + 1,
{
    if i + pat.len() <= s.len() && s.subrange(i, i + pat.len()) != pat {
        lemma_find_from(s, pat, i + 1);
    }
}

/// An index at which `pat` stands, with none before it, is what `find_from` gives.
pub proof fn lemma_find_at<T>(s: Seq<T>, pat: Seq<T>, i: int, k: int)
    requires
        0 <= i <= k,
        occurs_at(s, pat, k),
        forall|j: int| i <= j < k ==> !occurs_at(s, pat, j),
    ensures
        find_from(s, pat, i) == Some(k),
{
    lemma_find_from(s, pat, i);
}

/// Whether `c` is whitespace.
pub fn space(c: char) -> (yes: bool)
    ensures
        yes == is_whitespace(c),
{
    let n: u32 = c as u32;
    (0x9 <= n && n <= 0xd) || n == 0x20 || n == 0x85 || n == 0xa0 || n == 0x1680 || (0x2000 <= n
        && n <= 0x200a) || n == 0x2028 || n == 0x2029 || n == 0x202f || n == 0x205f || n == 0x3000
}

/// `s` without its leading whitespace.
pub fn trimmed_start(s: &[char]) -> (t: &[char])
    ensures
        t@ == trim_start(s@),
{
    let mut i: usize = 0;
    assert(s@.skip(0) == s@);
    while i < s.len() && space(s[i])
        invariant
            i <= s@.len(),
            trim_start(s@.skip(i as int)) == trim_start(s@),
        decreases s.len() - i,
    {
        assert(s@.skip(i as int).skip(1) == s@.skip(i + 1));
        i = i + 1;
    }
    slice_subrange(s, i, s.len())
}

/// `s` without the whitespace at either end.
pub fn trimmed(s: &[char]) -> (t: &[char])
    ensures
        t@ == trim(s@),
{
    let t = trimmed_start(s);
    let mut n: usize = t.len();
    assert(t@.take(n as int) == t@);
    while n > 0 && space(t[n - 1])
        invariant
            n <= t@.len(),
            trim_end(t@.take(n as int)) == trim_end(t@),
        decreases n,
    {
        assert(t@.take(n as int).drop_last() == t@.take(n - 1));
        n = n - 1;
    }
    slice_subrange(t, 0, n)
}

/// A string without the whitespace at either end.
pub fn trimmed_str(s: &str) -> (t: String)
    ensures
        t@ == trim(s@),
{
    let chars = to_chars(s);
    from_chars(trimmed(chars.as_slice()))
}

/// Whether a string holds nothing but whitespace.
pub fn blank(s: &str) -> (yes: bool)
    ensures
        yes == (trim(s@).len() == 0),
{
    let chars = to_chars(s);
    trimmed(chars.as_slice()).len() == 0
}

/// `s` with its ASCII capitals turned into small letters.
pub fn lowered(s: &[char]) -> (t: Vec<char>)
    ensures
        t@ == lower(s@),
{
    let mut t: Vec<char> = Vec::new();
    let mut i: usize = 0;
    while i < s.len()
        invariant
            i <= s@.len(),
            t@ == lower(s@.take(i as int)),
        decreases s.len() - i,
    {
        let c = s[i];
        let d = if 'A' <= c && c <= 'Z' {
            ((c as u8) + 32) as char
        } else {
            c
        };
        t.push(d);
        assert(lower(s@.take(i + 1)) == lower(s@.take(i as int)).push(lower_char(c)));
        i = i + 1;
    }
    assert(s@.take(s@.len() as int) == s@);
    t
}

/// Whether two texts are the same.
pub fn same(a: &[char], b: &[char]) -> (yes: bool)
    ensures
        yes == (a@ == b@),
{
    if a.len() != b.len() {
        return false;
    }
    let mut i: usize = 0;
    while i < a.len()
        invariant
            i <= a@.len(),
            a@.len() == b@.len(),
            forall|j: int| 0 <= j < i ==> a@[j] == b@[j],
        decreases a.len() - i,
    {
        if a[i] != b[i] {
            return false;
        }
        i = i + 1;
    }
    assert(a@ =~= b@);
    true
}

/// Whether two strings are the same.
pub fn same_str(a: &str, b: &str) -> (yes: bool)
    ensures
        yes == (a@ == b@),
{
    let a = to_chars(a);
    let b = to_chars(b);
    same(a.as_slice(), b.as_slice())
}

/// Whether two texts are the same up to the case of ASCII letters.
pub fn same_ignoring_case(a: &[char], b: &[char]) -> (yes: bool)
    ensures
        yes == (lower(a@) == lower(b@)),
{
    let a = lowered(a);
    let b = lowered(b);
    same(a.as_slice(), b.as_slice())
}

/// The first index at which `pat` stands in `s`.
pub fn position(s: &[char], pat: &[char]) -> (at: Option<usize>)
    ensures
        match at {
            Some(i) => find(s@, pat@) == Some(i as int),
            None => find(s@, pat@) is None,
        },
{
    if pat.len() > s.len() {
        return None;
    }
    let last: usize = s.len() - pat.len();
    let mut i: usize = 0;
    while i <= last
        invariant
            last == s@.len() - pat@.len(),
            i <= last + 1,
            s@.len() <= usize::MAX,
            find_from(s@, pat@, i as int) == find(s@, pat@),
        decreases last + 1 - i,
    {
        if same(slice_subrange(s, i, i + pat.len()), pat) {
            return Some(i);
        }
        if i == last {
            assert(find_from(s@, pat@, i + 1) is None);
            return None;
        }
        i = i + 1;
    }
    None
}

/// Whether `pat` stands somewhere in `s`.
pub fn holds_text(s: &[char], pat: &[char]) -> (yes: bool)
    ensures
        yes == contains(s@, pat@),
{
    proof {
        lemma_find_from(s@, pat@, 0);
    }
    position(s, pat).is_some()
}

/// The parts of `s` before and after the first `pat`.
pub fn cut<'a>(s: &'a [char], pat: &[char]) -> (parts: Option<(&'a [char], &'a [char])>)
    ensures
        match parts {
            Some((a, b)) => split_once(s@, pat@) == Some((a@, b@)),
            None => split_once(s@, pat@) is None,
        },
{
    let n: usize = s.len();
    proof {
        lemma_find_from(s@, pat@, 0);
    }
    match position(s, pat) {
        Some(i) => Some((slice_subrange(s, 0, i), slice_subrange(s, i + pat.len(), n))),
        None => None,
    }
}

/// The parts of `s` before and after the first `c`.
pub fn cut_char(s: &[char], c: char) -> (parts: Option<(&[char], &[char])>)
    ensures
        match parts {
            Some((a, b)) => split_once(s@, seq![c]) == Some((a@, b@)),
            None => split_once(s@, seq![c]) is None,
        },
{
    let mut pat: Vec<char> = Vec::new();
    pat.push(c);
    assert(pat@ == seq![c]);
    cut(s, pat.as_slice())
}

/// The parts of `s` before and after the last `c`.
pub fn cut_last(s: &[char], c: char) -> (parts: Option<(&[char], &[char])>)
    ensures
        match parts {
            Some((a, b)) => split_last(s@, c) == Some((a@, b@)),
            None => split_last(s@, c) is None,
        },
{
    let mut n: usize = s.len();
    assert(s@.take(n as int) == s@);
    while n > 0
        invariant
            n <= s@.len(),
            find_last(s@.take(n as int), c) == find_last(s@, c),
        decreases n,
    {
        if s[n - 1] == c {
            return Some((slice_subrange(s, 0, n - 1), slice_subrange(s, n, s.len())));
        }
        assert(s@.take(n as int).drop_last() == s@.take(n - 1));
        n = n - 1;
    }
    None
}

/// The pieces of `s` between the occurrences of `pat`.
pub fn pieces<'a>(s: &'a [char], pat: &[char]) -> (parts: Vec<&'a [char]>)
    requires
        pat@.len() > 0,
    ensures
        texts(parts@) == split(s@, pat@),
{
    let mut parts: Vec<&'a [char]> = Vec::new();
    let mut rest: &'a [char] = s;
    let mut more = true;
    while more
        invariant
            pat@.len() > 0,
            more ==> split(s@, pat@) == texts(parts@) + split(rest@, pat@),
            !more ==> split(s@, pat@) == texts(parts@),
        decreases rest@.len(), if more {
                1int
            } else {
                0int
            },
    {
        let ghost before = texts(parts@);
        proof {
            lemma_find_from(rest@, pat@, 0);
        }
        match cut(rest, pat) {
            Some((piece, tail)) => {
                parts.push(piece);
                assert(texts(parts@) == before.push(piece@));
                assert(split(s@, pat@) == texts(parts@) + split(tail@, pat@));
                rest = tail;
            },
            None => {
                parts.push(rest);
                assert(texts(parts@) == before.push(rest@));
                more = false;
            },
        }
    }
    parts
}

/// The lines of `s`.
pub fn line_slices(s: &[char]) -> (parts: Vec<&[char]>)
    ensures
        texts(parts@) == lines(s@),
{
    let mut parts: Vec<&[char]> = Vec::new();
    let mut rest: &[char] = s;
    while rest.len() > 0
        invariant
            lines(s@) == texts(parts@) + lines(rest@),
        decreases rest@.len(),
    {
        let ghost before = texts(parts@);
        proof {
            lemma_find_from(rest@, seq!['\n'], 0);
        }
        match cut_char(rest, '\n') {
            Some((line, tail)) => {
                let line = without_cr(line);
                parts.push(line);
                assert(texts(parts@) == before.push(line@));
                assert(lines(s@) == texts(parts@) + lines(tail@));
                rest = tail;
            },
            None => {
                parts.push(rest);
                assert(texts(parts@) == before.push(rest@));
                rest = slice_subrange(rest, rest.len(), rest.len());
                assert(lines(s@) == texts(parts@) + lines(rest@));
            },
        }
    }
    parts
}

/// A line without the carriage return that ends it.
pub fn without_cr(line: &[char]) -> (t: &[char])
    ensures
        t@ == strip_cr(line@),
{
    if line.len() > 0 && line[line.len() - 1] == '\r' {
        slice_subrange(line, 0, line.len() - 1)
    } else {
        line
    }
}

/// The first word of `s` and what follows it.
pub fn word(s: &[char]) -> (parts: (&[char], &[char]))
    ensures
        parts.0@ == first_word(s@),
        parts.1@ == after_first_word(s@),
{
    let t = trimmed_start(s);
    let mut n: usize = 0;
    assert(t@.skip(0) == t@);
    while n < t.len() && !space(t[n])
        invariant
            n <= t@.len(),
            word_len(t@) == n + word_len(t@.skip(n as int)),
        decreases t.len() - n,
    {
        assert(t@.skip(n as int).skip(1) == t@.skip(n + 1));
        n = n + 1;
    }
    (slice_subrange(t, 0, n), slice_subrange(t, n, t.len()))
}

/// `n` written in base ten.
pub fn number(n: u64) -> (s: String)
    ensures
        s@ == decimal(n as nat),
    decreases n,
{
    let digit = (48 + (n % 10) as u8) as char;
    let mut s = if n < 10 {
        String::new()
    } else {
        number(n / 10)
    };
    s.push(digit);
    assert(n < 10 ==> s@ == seq![digit]);
    s
}

/// The port that `s` writes.
pub fn port_value(s: &[char]) -> (port: Option<u16>)
    ensures
        port == parse_port(s@),
{
    let digits = if s.len() > 0 && s[0] == '+' {
        slice_subrange(s, 1, s.len())
    } else {
        s
    };
    if digits.len() == 0 {
        return None;
    }
    let mut value: u32 = 0;
    let mut i: usize = 0;
    while i < digits.len()
        invariant
            i <= digits@.len(),
            digits@.len() > 0,
            digits@ == without_plus(s@),
            value <= u16::MAX,
            value == digits_value(digits@.take(i as int)),
            forall|j: int| 0 <= j < i ==> is_digit(#[trigger] digits@[j]),
        decreases digits.len() - i,
    {
        let c = digits[i];
        if !('0' <= c && c <= '9') {
            return None;
        }
        assert(digits@.take(i + 1).drop_last() == digits@.take(i as int));
        value = value * 10 + (c as u32 - '0' as u32);
        i = i + 1;
        if value > u16::MAX as u32 {
            proof {
                lemma_digits_grow(digits@, i as int);
            }
            return None;
        }
    }
    assert(digits@.take(i as int) == digits@);
    Some(value as u16)
}

/// A row of digits is worth at least as much as its beginning.
pub proof fn lemma_digits_grow(s: Seq<char>, n: int)
    requires
        0 <= n <= s.len(),
    ensures
        all_digits(s) ==> digits_value(s.take(n)) <= digits_value(s),
    decreases s.len() - n,
{
    if n < s.len() {
        lemma_digits_grow(s, n + 1);
        assert(s.take(n + 1).drop_last() == s.take(n));
        assert(is_digit(s[n]) ==> digits_value(s.take(n)) <= digits_value(s.take(n + 1)));
    } else {
        assert(s.take(n) == s);
    }
}

/// What `String::from_utf8_lossy` makes of a row of bytes.
pub uninterp spec fn lossy_text(bytes: Seq<u8>) -> Seq<char>;

/// `String::from_utf8_lossy`, made an owned string. Its result depends on the
/// bytes alone; bytes that are valid UTF-8 give the characters that they encode.
/// Which replacement characters stand for invalid bytes is not said.
#[verifier::external_body]
pub(crate) fn utf8_lossy(bytes: &[u8]) -> (s: String)
    ensures
        s@ == lossy_text(bytes@),
        valid_utf8(bytes@) ==> s@ == decode_utf8(bytes@),
{
    String::from_utf8_lossy(bytes).into_owned()
}

/// `String::from_utf8`: the characters that the bytes encode if they are valid
/// UTF-8, and no string otherwise.
#[verifier::external_body]
pub(crate) fn utf8_text(bytes: Vec<u8>) -> (s: Option<String>)
    ensures
        match s {
            Some(text) => valid_utf8(bytes@) && text@ == decode_utf8(bytes@),
            None => !valid_utf8(bytes@),
        },
{
    String::from_utf8(bytes).ok()
}

} // verus!
