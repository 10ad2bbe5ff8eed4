//! What holds of texts: their words, the numbers in them, the places where they
//! are cut.
use vstd::prelude::*;
use crate::text;

verus! {

/// No character of `s` is whitespace.
pub open spec fn unspaced(s: Seq<char>) -> bool {
    forall|i: int| 0 <= i < s.len() ==> !text::is_whitespace(#[trigger] s[i])
}

pub proof fn lemma_decimal(n: nat)
    ensures
        text::decimal(n).len() > 0,
        text::all_digits(text::decimal(n)),
        text::digits_value(text::decimal(n)) == n,
    decreases n,
{
    let s = text::decimal(n);
    if n >= 10 {
        lemma_decimal(n / 10);
        assert(s.drop_last() == text::decimal(n / 10));
        assert forall|i: int| 0 <= i < s.len() implies text::is_digit(#[trigger] s[i]) by {
            if i < s.len() - 1 {
                assert(s[i] == text::decimal(n / 10)[i]);
            }
        }
    } else {
        assert(s.drop_last() == Seq::<char>::empty());
        assert(text::digits_value(Seq::<char>::empty()) == 0);
    }
}

/// A port written in base ten is read back as that port.
pub proof fn law_port_round_trip(port: u16)
    ensures
        text::parse_port(text::decimal(port as nat)) == Some(port),
{
    let s = text::decimal(port as nat);
    lemma_decimal(port as nat);
    assert(text::is_digit(s[0]));
    assert(text::without_plus(s) == s);
}

pub proof fn lemma_split_once_char(a: Seq<char>, c: char, b: Seq<char>)
    requires
        !a.contains(c),
    ensures
        text::split_once(a + seq![c] + b, seq![c]) == Some((a, b)),
{
    let s = a + seq![c] + b;
    let k = a.len() as int;
    assert(s.subrange(k, k + 1) == seq![c]);
    assert forall|j: int| 0 <= j < k implies !text::occurs_at(s, seq![c], j) by {
        if text::occurs_at(s, seq![c], j) {
            assert(s.subrange(j, j + 1)[0] == c);
            assert(a.contains(a[j]));
        }
    }
    text::lemma_find_at(s, seq![c], 0, k);
    assert(s.take(k) == a);
    assert(s.skip(k + 1) == b);
}

pub proof fn lemma_decimal_has_no(n: nat, c: char)
    requires
        !text::is_digit(c),
    ensures
        !text::decimal(n).contains(c),
{
    lemma_decimal(n);
}

pub proof fn lemma_trim_start_fixed(s: Seq<char>)
    requires
        s.len() > 0 ==> !text::is_whitespace(s[0]),
    ensures
        text::trim_start(s) == s,
        text::trim_start(seq![' '] + s) == s,
{
    assert((seq![' '] + s).skip(1) == s);
}

pub proof fn lemma_word_len(word: Seq<char>, rest: Seq<char>)
    requires
        unspaced(word),
        rest.len() > 0 ==> text::is_whitespace(rest[0]),
    ensures
        text::word_len(word + rest) == word.len(),
    decreases word.len(),
{
    let s = word + rest;
    if word.len() > 0 {
        assert(s.skip(1) == word.skip(1) + rest);
        assert(!text::is_whitespace(word[0]));
        assert forall|i: int| 0 <= i < word.skip(1).len() implies !text::is_whitespace(
            #[trigger] word.skip(1)[i],
        ) by {
            assert(word.skip(1)[i] == word[i + 1]);
        }
        lemma_word_len(word.skip(1), rest);
    }
}

pub proof fn lemma_first_word(word: Seq<char>, rest: Seq<char>)
    requires
        unspaced(word),
        word.len() > 0,
        rest.len() > 0 ==> text::is_whitespace(rest[0]),
    ensures
        text::first_word(word + rest) == word,
        text::after_first_word(word + rest) == rest,
        text::first_word(seq![' '] + (word + rest)) == word,
        text::after_first_word(seq![' '] + (word + rest)) == rest,
{
    let s = word + rest;
    assert(!text::is_whitespace(word[0]));
    lemma_trim_start_fixed(s);
    lemma_word_len(word, rest);
    assert(s.take(word.len() as int) == word);
    assert(s.skip(word.len() as int) == rest);
}

pub proof fn lemma_unspaced_join(a: Seq<char>, b: Seq<char>)
    requires
        unspaced(a),
        unspaced(b),
    ensures
        unspaced(a + b),
{
    assert forall|i: int| 0 <= i < (a + b).len() implies !text::is_whitespace(
        #[trigger] (a + b)[i],
    ) by {
        if i < a.len() {
            assert((a + b)[i] == a[i]);
        } else {
            assert((a + b)[i] == b[i - a.len()]);
        }
    }
}

pub proof fn lemma_unspaced_decimal(n: nat)
    ensures
        unspaced(text::decimal(n)),
{
    lemma_decimal(n);
    let s = text::decimal(n);
    assert forall|i: int| 0 <= i < s.len() implies !text::is_whitespace(#[trigger] s[i]) by {
        assert(text::is_digit(s[i]));
    }
}

pub proof fn lemma_split_last(a: Seq<char>, c: char, b: Seq<char>)
    requires
        !b.contains(c),
    ensures
        text::split_last(a + seq![c] + b, c) == Some((a, b)),
    decreases b.len(),
{
    let s = a + seq![c] + b;
    lemma_find_last(a, c, b);
    assert(s.take(a.len() as int) == a);
    assert(s.skip(a.len() as int + 1) == b);
}

proof fn lemma_find_last(a: Seq<char>, c: char, b: Seq<char>)
    requires
        !b.contains(c),
    ensures
        text::find_last(a + seq![c] + b, c) == Some(a.len() as int),
    decreases b.len(),
{
    let s = a + seq![c] + b;
    if b.len() > 0 {
        assert(s.last() == b.last());
        assert(b.contains(b.last()));
        assert(s.drop_last() == a + seq![c] + b.drop_last());
        assert forall|i: int| 0 <= i < b.drop_last().len() implies b.drop_last()[i] != c by {
            assert(b.contains(b[i]));
        }
        lemma_find_last(a, c, b.drop_last());
    } else {
        assert(s.last() == c);
    }
}

/// A text holds another exactly where it can be taken apart into a beginning, that
/// other and an end.
pub proof fn law_contains_is_a_middle(s: Seq<char>, pat: Seq<char>)
    ensures
        text::contains(s, pat) <==> exists|a: Seq<char>, b: Seq<char>| s == #[trigger] (a + pat
            + b),
{
    if text::contains(s, pat) {
        let i = choose|i: int| text::occurs_at(s, pat, i);
        let a = s.take(i);
        let b = s.skip(i + pat.len());
        assert(a + pat + b =~= s) by {
            assert(s.subrange(i, i + pat.len()) == pat);
            assert forall|k: int| 0 <= k < s.len() implies (a + pat + b)[k] == s[k] by {
                if i <= k < i + pat.len() {
                    assert(s.subrange(i, i + pat.len())[k - i] == pat[k - i]);
                }
            }
        }
    }
    if exists|a: Seq<char>, b: Seq<char>| s == #[trigger] (a + pat + b) {
        let (a, b) = choose|a: Seq<char>, b: Seq<char>| s == #[trigger] (a + pat + b);
        assert(s.subrange(a.len() as int, (a.len() + pat.len()) as int) =~= pat);
        assert(text::occurs_at(s, pat, a.len() as int));
    }
}

/// Turning capitals into small letters changes `A` to `Z` and nothing else: each of
/// them becomes the letter thirty-two places on.
pub proof fn law_lower(s: Seq<char>)
    ensures
        text::lower(s).len() == s.len(),
        forall|i: int|
            0 <= i < s.len() ==> if 65 <= (#[trigger] s[i]) as int <= 90 {
                text::lower(s)[i] as int == s[i] as int + 32
            } else {
                text::lower(s)[i] == s[i]
            },
{
}

/// `s` writes the word `w`, which has no capitals, each letter small or capital.
pub open spec fn spelled(s: Seq<char>, w: Seq<char>) -> bool {
    &&& s.len() == w.len()
    &&& forall|i: int|
        0 <= i < w.len() ==> s[i] == #[trigger] w[i] || (97 <= w[i] as int <= 122 && s[i] as int
            == w[i] as int - 32)
}

/// Two texts are the same up to the case of letters exactly where one spells the
/// other, if that has no capitals.
pub proof fn law_spelling(s: Seq<char>, w: Seq<char>)
    requires
        forall|i: int| 0 <= i < w.len() ==> !(65 <= (#[trigger] w[i]) as int <= 90),
    ensures
        text::lower(s) == text::lower(w) <==> spelled(s, w),
        text::lower(s) == w <==> spelled(s, w),
{
    assert(text::lower(w) =~= w) by {
        assert forall|i: int| 0 <= i < w.len() implies text::lower(w)[i] == w[i] by {
        }
    }
    if text::lower(s) == w {
        assert forall|i: int| 0 <= i < w.len() implies s[i] == #[trigger] w[i] || (97
            <= w[i] as int <= 122 && s[i] as int == w[i] as int - 32) by {
            assert(text::lower(s)[i] == w[i]);
            assert(text::lower_char(s[i]) == w[i]);
        }
    }
    if spelled(s, w) {
        assert forall|i: int| 0 <= i < w.len() implies text::lower(s)[i] == w[i] by {
            assert(s[i] == w[i] || (97 <= w[i] as int <= 122 && s[i] as int == w[i] as int - 32));
            assert(!(65 <= w[i] as int <= 90));
        }
        assert(text::lower(s) =~= w);
    }
}

pub proof fn lemma_split_char(a: Seq<char>, c: char, b: Seq<char>)
    requires
        !a.contains(c),
    ensures
        text::split(a + seq![c] + b, seq![c]) == seq![a] + text::split(b, seq![c]),
        text::split(a, seq![c]) == seq![a],
{
    let pat = seq![c];
    lemma_split_once_char(a, c, b);
    text::lemma_find_from(a, pat, 0);
    if text::find(a, pat) is Some {
        let k = text::find(a, pat)->0;
        assert(a.subrange(k, k + 1)[0] == c);
        assert(a[k] == c);
    }
}

/// A number is written without leading zeros.
pub proof fn law_decimal_has_no_leading_zero(n: nat)
    ensures
        text::decimal(n).len() > 1 ==> text::decimal(n)[0] != '0',
        n > 0 ==> text::decimal(n)[0] != '0',
    decreases n,
{
    if n >= 10 {
        law_decimal_has_no_leading_zero(n / 10);
        lemma_decimal(n / 10);
        assert(text::decimal(n)[0] == text::decimal(n / 10)[0]);
    }
}

/// A number ends in the digit of its ones, and what stands before that is the
/// number of its tens.
pub proof fn law_decimal_digits(n: nat)
    ensures
        text::decimal(n).last() as int == 48 + n % 10,
        n >= 10 ==> text::decimal(n).drop_last() == text::decimal(n / 10),
        n < 10 ==> text::decimal(n).len() == 1,
{
    if n >= 10 {
        assert(text::decimal(n).drop_last() =~= text::decimal(n / 10));
    }
}

/// One more digit makes the number before it ten times as great and adds what the
/// digit is worth.
pub proof fn law_digits_value(s: Seq<char>, c: char)
    requires
        48 <= c as int <= 57,
    ensures
        text::digits_value(s.push(c)) == text::digits_value(s) * 10 + (c as int - 48),
        text::digits_value(Seq::<char>::empty()) == 0,
{
    assert(s.push(c).drop_last() =~= s);
}

/// What stands before and after the first occurrence of a text gives, with that
/// text between, the whole again, and there is no earlier occurrence; without any
/// occurrence nothing is cut.
pub proof fn law_split_once(s: Seq<char>, pat: Seq<char>)
    ensures
        match text::split_once(s, pat) {
            Some((a, b)) => {
                &&& s == a + pat + b
                &&& forall|x: Seq<char>, y: Seq<char>| s == #[trigger] (x + pat + y) ==> a.len()
                    <= x.len()
            },
            None => forall|x: Seq<char>, y: Seq<char>| s != #[trigger] (x + pat + y),
        },
{
    text::lemma_find_from(s, pat, 0);
    assert forall|x: Seq<char>, y: Seq<char>| s == #[trigger] (x + pat + y) implies text::occurs_at(
        s,
        pat,
        x.len() as int,
    ) by {
        assert(s.subrange(x.len() as int, (x.len() + pat.len()) as int) =~= pat);
    }
    match text::find(s, pat) {
        Some(i) => {
            let a = s.take(i);
            let b = s.skip(i + pat.len());
            assert(s =~= a + pat + b) by {
                assert forall|k: int| 0 <= k < s.len() implies (a + pat + b)[k] == s[k] by {
                    if i <= k < i + pat.len() {
                        assert(s.subrange(i, i + pat.len())[k - i] == pat[k - i]);
                    }
                }
            }
        },
        None => {},
    }
}

/// What stands before and after the last occurrence of a character gives, with the
/// character between, the whole again, and it does not occur after; without any
/// occurrence nothing is cut.
pub proof fn law_split_last(s: Seq<char>, c: char)
    ensures
        match text::split_last(s, c) {
            Some((a, b)) => s == a + seq![c] + b && !b.contains(c),
            None => !s.contains(c),
        },
{
    lemma_find_last_is_last(s, c);
    match text::find_last(s, c) {
        Some(i) => {
            let a = s.take(i);
            let b = s.skip(i + 1);
            assert(s =~= a + seq![c] + b);
            if b.contains(c) {
                let k = b.index_of(c);
                assert(s[i + 1 + k] == c);
            }
        },
        None => {},
    }
}

proof fn lemma_find_last_is_last(s: Seq<char>, c: char)
    ensures
        match text::find_last(s, c) {
            Some(i) => 0 <= i < s.len() && s[i] == c && (forall|j: int|
                i < j < s.len() ==> s[j] != c),
            None => forall|j: int| 0 <= j < s.len() ==> s[j] != c,
        },
    decreases s.len(),
{
    if s.len() > 0 && s.last() != c {
        lemma_find_last_is_last(s.drop_last(), c);
        assert forall|j: int| 0 <= j < s.len() - 1 implies s.drop_last()[j] == s[j] by {
        }
    }
}

/// Every character of `s` is whitespace.
pub open spec fn all_space(s: Seq<char>) -> bool {
    forall|i: int| 0 <= i < s.len() ==> text::is_whitespace(#[trigger] s[i])
}

/// Whitespace are the tab, the line feed and their like, the space, the no-break
/// space and the other characters that Unicode counts as such, and nothing else.
pub proof fn law_whitespace(c: char)
    ensures
        text::is_whitespace(c) <==> {
            ||| c == '\t' || c == '\n' || c == '\r' || c == ' '
            ||| c as int == 0x0b || c as int == 0x0c || c as int == 0x85 || c as int == 0xa0
            ||| c as int == 0x1680 || 0x2000 <= c as int && c as int <= 0x200a
            ||| c as int == 0x2028 || c as int == 0x2029 || c as int == 0x202f
            ||| c as int == 0x205f || c as int == 0x3000
        },
{
}

proof fn lemma_trim_start_parts(s: Seq<char>)
    ensures
        text::trim_start(s).len() <= s.len(),
        text::trim_start(s) == s.skip(s.len() - text::trim_start(s).len()),
        all_space(s.take(s.len() - text::trim_start(s).len())),
        text::trim_start(s).len() > 0 ==> !text::is_whitespace(text::trim_start(s)[0]),
    decreases s.len(),
{
    let t = text::trim_start(s);
    if s.len() > 0 && text::is_whitespace(s[0]) {
        let rest = s.skip(1);
        lemma_trim_start_parts(rest);
        let n = s.len() - t.len();
        assert(t =~= s.skip(n));
        assert forall|i: int| 0 <= i < n implies text::is_whitespace(#[trigger] s.take(n)[i]) by {
            if i > 0 {
                assert(rest.take(n - 1)[i - 1] == s[i]);
            }
        }
    } else {
        assert(s.skip(0) =~= s);
    }
}

proof fn lemma_trim_end_parts(s: Seq<char>)
    ensures
        text::trim_end(s).len() <= s.len(),
        text::trim_end(s) == s.take(text::trim_end(s).len() as int),
        all_space(s.skip(text::trim_end(s).len() as int)),
        text::trim_end(s).len() > 0 ==> !text::is_whitespace(text::trim_end(s).last()),
    decreases s.len(),
{
    let t = text::trim_end(s);
    let n = t.len() as int;
    if s.len() > 0 && text::is_whitespace(s.last()) {
        let rest = s.drop_last();
        lemma_trim_end_parts(rest);
        assert(t =~= s.take(n));
        assert forall|i: int| 0 <= i < s.len() - n implies text::is_whitespace(
            #[trigger] s.skip(n)[i],
        ) by {
            if n + i < s.len() - 1 {
                assert(rest.skip(n)[i] == s[n + i]);
            }
        }
    } else {
        assert(s.take(n) =~= s);
    }
}

/// Trimming takes whitespace off both ends, all that is there and nothing else: the
/// text is some whitespace, what is left, and some whitespace, and what is left
/// neither begins nor ends with any.
pub proof fn law_trim_takes_off_whitespace(s: Seq<char>)
    ensures
        ({
            let t = text::trim(s);
            &&& exists|a: Seq<char>, b: Seq<char>|
                #[trigger] all_space(a) && #[trigger] all_space(b) && s == a + t + b
            &&& t.len() > 0 ==> !text::is_whitespace(t[0]) && !text::is_whitespace(t.last())
        }),
{
    let u = text::trim_start(s);
    let t = text::trim(s);
    lemma_trim_start_parts(s);
    lemma_trim_end_parts(u);
    let a = s.take(s.len() - u.len());
    let b = u.skip(t.len() as int);
    assert(s =~= a + t + b);
    assert(all_space(a) && all_space(b));
    if t.len() > 0 {
        assert(t[0] == u[0]);
    }
}

/// Nothing is left of a text by trimming it exactly where it is all whitespace.
pub proof fn law_blank_is_all_whitespace(s: Seq<char>)
    ensures
        text::trim(s).len() == 0 <==> all_space(s),
{
    law_trim_takes_off_whitespace(s);
    let t = text::trim(s);
    let (a, b) = choose|a: Seq<char>, b: Seq<char>|
        #[trigger] all_space(a) && #[trigger] all_space(b) && s == a + t + b;
    if t.len() == 0 {
        assert forall|i: int| 0 <= i < s.len() implies text::is_whitespace(#[trigger] s[i]) by {
            if i < a.len() {
                assert(s[i] == a[i]);
            } else {
                assert(s[i] == b[i - a.len()]);
            }
        }
    } else {
        assert(s[a.len() as int] == t[0]);
    }
}

/// The first word of a text: whatever stands before it is whitespace, it holds
/// none, and it is followed by some or by nothing. A text has no first word only
/// where it is all whitespace.
pub proof fn law_first_word(s: Seq<char>)
    ensures
        ({
            let word = text::first_word(s);
            let rest = text::after_first_word(s);
            &&& exists|a: Seq<char>| #[trigger] all_space(a) && s == a + word + rest
            &&& unspaced(word)
            &&& rest.len() > 0 ==> text::is_whitespace(rest[0])
            &&& word.len() == 0 <==> all_space(s)
        }),
{
    let t = text::trim_start(s);
    let word = text::first_word(s);
    let rest = text::after_first_word(s);
    lemma_trim_start_parts(s);
    lemma_word_parts(t);
    let a = s.take(s.len() - t.len());
    assert(s =~= a + word + rest);
    assert(all_space(a));
    if word.len() == 0 {
        assert(s =~= a);
    } else {
        assert(s[a.len() as int] == word[0]);
        assert(!text::is_whitespace(word[0]));
    }
}

proof fn lemma_word_parts(t: Seq<char>)
    ensures
        text::word_len(t) <= t.len(),
        unspaced(t.take(text::word_len(t) as int)),
        text::word_len(t) < t.len() ==> text::is_whitespace(t[text::word_len(t) as int]),
    decreases t.len(),
{
    let n = text::word_len(t) as int;
    if t.len() > 0 && !text::is_whitespace(t[0]) {
        let rest = t.skip(1);
        lemma_word_parts(rest);
        assert forall|i: int| 0 <= i < n implies !text::is_whitespace(#[trigger] t.take(n)[i]) by {
            if i > 0 {
                assert(rest.take(n - 1)[i - 1] == t[i]);
            }
        }
    }
}

/// Pieces with a text between each two.
pub open spec fn joined(pieces: Seq<Seq<char>>, pat: Seq<char>) -> Seq<char>
    decreases pieces.len(),
{
    if pieces.len() == 0 {
        Seq::empty()
    } else if pieces.len() == 1 {
        pieces[0]
    } else {
        pieces[0] + pat + joined(pieces.skip(1), pat)
    }
}

/// The pieces of a text, put together again with what was between them, are that
/// text; there is at least one, and none holds what they are cut at.
pub proof fn law_pieces_make_the_whole(s: Seq<char>, pat: Seq<char>)
    requires
        pat.len() > 0,
    ensures
        text::split(s, pat).len() > 0,
        joined(text::split(s, pat), pat) == s,
        forall|i: int|
            0 <= i < text::split(s, pat).len() ==> !text::contains(
                #[trigger] text::split(s, pat)[i],
                pat,
            ),
    decreases s.len(),
{
    let all = text::split(s, pat);
    text::lemma_find_from(s, pat, 0);
    match text::find(s, pat) {
        Some(k) => {
            let tail = s.skip(k + pat.len());
            let first = s.take(k);
            let rest = text::split(tail, pat);
            law_pieces_make_the_whole(tail, pat);
            law_split_once(s, pat);
            assert(all.skip(1) =~= rest);
            assert forall|j: int| !text::occurs_at(first, pat, j) by {
                if text::occurs_at(first, pat, j) {
                    assert(s.subrange(j, j + pat.len()) =~= first.subrange(j, j + pat.len()));
                    assert(text::occurs_at(s, pat, j));
                }
            }
            assert forall|i: int| 0 <= i < all.len() implies !text::contains(
                #[trigger] all[i],
                pat,
            ) by {
                if i > 0 {
                    assert(all[i] == rest[i - 1]);
                }
            }
        },
        None => {
            assert(all =~= seq![s]);
        },
    }
}

/// A line ends at its line feed, which may follow a carriage return; neither
/// belongs to it. What follows the last line feed is a line unless it is empty.
pub proof fn law_lines(line: Seq<char>, rest: Seq<char>)
    requires
        !line.contains('\n'),
    ensures
        line.len() == 0 || line.last() != '\r' ==> text::lines(line + "\n"@ + rest) == seq![line]
            + text::lines(rest),
        text::lines(line + "\r\n"@ + rest) == seq![line] + text::lines(rest),
        line.len() > 0 ==> text::lines(line) == seq![line],
        text::lines(Seq::<char>::empty()).len() == 0,
{
    reveal_strlit("\n");
    reveal_strlit("\r\n");
    let end = seq!['\n'];
    assert("\n"@ =~= end);
    lemma_lines_front(line, rest);
    let ended = line.push('\r');
    assert(!ended.contains('\n')) by {
        if ended.contains('\n') {
            let i = ended.index_of('\n');
            if i < line.len() {
                assert(line[i] == '\n');
            }
        }
    }
    lemma_lines_front(ended, rest);
    assert(ended + end + rest =~= line + "\r\n"@ + rest);
    assert(ended.drop_last() =~= line);
    text::lemma_find_from(line, end, 0);
    if text::find(line, end) is Some {
        let k = text::find(line, end)->0;
        assert(line.subrange(k, k + 1)[0] == '\n');
        assert(line[k] == '\n');
    }
}

proof fn lemma_lines_front(line: Seq<char>, rest: Seq<char>)
    requires
        !line.contains('\n'),
    ensures
        text::lines(line + seq!['\n'] + rest) == seq![text::strip_cr(line)] + text::lines(rest),
{
    let end = seq!['\n'];
    let s = line + end + rest;
    lemma_split_once_char(line, '\n', rest);
    text::lemma_find_from(s, end, 0);
    let k = text::find(s, end)->0;
    assert(s.take(k) == line);
    assert(s.skip(k + 1) == rest);
}

/// A port is read from digits alone, with a plus sign in front or without, whose
/// number is at most 65535; nothing else is a port.
pub proof fn law_ports(s: Seq<char>, port: u16)
    ensures
        text::parse_port(s) == Some(port) && s[0] == '+' ==> s.len() > 1 && text::digits_value(
            s.skip(1),
        ) == port,
        text::parse_port(s) == Some(port) && s[0] != '+' ==> s.len() > 0 && text::digits_value(s)
            == port,
        text::parse_port(s) is Some ==> forall|i: int|
            0 < i < s.len() || (i == 0 && s[0] != '+') ==> 48 <= (#[trigger] s[i]) as int <= 57,
        text::parse_port(s) is None ==> text::parse_port("+"@ + s) is None || (s.len() > 0 && s[0]
            == '+'),
        text::parse_port("+"@ + text::decimal(port as nat)) == Some(port),
        text::parse_port(Seq::<char>::empty()) is None,
{
    reveal_strlit("+");
    lemma_decimal(port as nat);
    let written = "+"@ + text::decimal(port as nat);
    assert(written.skip(1) =~= text::decimal(port as nat));
    assert(("+"@ + s).skip(1) =~= s);
    if text::parse_port(s) is Some {
        let digits = text::without_plus(s);
        assert forall|i: int| 0 < i < s.len() || (i == 0 && s[0] != '+') implies 48 <= (
        #[trigger] s[i]) as int <= 57 by {
            if s[0] == '+' {
                assert(digits[i - 1] == s[i]);
            } else {
                assert(digits[i] == s[i]);
            }
        }
    }
}

/// A number that is greater than 65535 is no port, and neither is a text that
/// holds anything but digits behind its first character.
pub proof fn law_no_ports(n: nat, s: Seq<char>, i: int)
    requires
        n > 65535,
        0 < i < s.len(),
        !(48 <= s[i] as int <= 57),
    ensures
        text::parse_port(text::decimal(n)) is None,
        text::parse_port(s) is None,
{
    lemma_decimal(n);
    assert(text::is_digit(text::decimal(n)[0]));
    let digits = text::without_plus(s);
    if s[0] == '+' {
        assert(digits[i - 1] == s[i]);
    } else {
        assert(digits[i] == s[i]);
    }
}

/// Pieces that do not hold a character are got back from the text that they make
/// with that character between them.
pub proof fn law_joined_pieces_are_got_back(pieces: Seq<Seq<char>>, c: char)
    requires
        pieces.len() > 0,
        forall|i: int| 0 <= i < pieces.len() ==> !(#[trigger] pieces[i]).contains(c),
    ensures
        text::split(joined(pieces, seq![c]), seq![c]) == pieces,
    decreases pieces.len(),
{
    let rest = pieces.skip(1);
    assert(!pieces[0].contains(c));
    if pieces.len() == 1 {
        lemma_split_char(pieces[0], c, pieces[0]);
        assert(pieces =~= seq![pieces[0]]);
    } else {
        assert forall|i: int| 0 <= i < rest.len() implies !(#[trigger] rest[i]).contains(c) by {
            assert(rest[i] == pieces[i + 1]);
        }
        law_joined_pieces_are_got_back(rest, c);
        lemma_split_char(pieces[0], c, joined(rest, seq![c]));
        assert(pieces =~= seq![pieces[0]] + rest);
    }
}

} // verus!
