use wormhole::ids::{IdMap, IdSet};
use wormhole::text::{
    blank, cut, cut_last, from_chars, line_slices, lowered, number, pieces, port_value,
    same_ignoring_case, space, to_chars, trimmed_str, word,
};

fn strings(parts: Vec<&[char]>) -> Vec<String> {
    parts.into_iter().map(from_chars).collect()
}

#[test]
fn whitespace_is_that_of_unicode() {
    for c in '\0'..=char::MAX {
        assert_eq!(space(c), c.is_whitespace());
    }
}

#[test]
fn texts_are_trimmed() {
    for text in ["", " ", "a", " a b\t", "\u{a0}é\u{2029}", "\u{200b}x"] {
        assert_eq!(trimmed_str(text), text.trim());
        assert_eq!(blank(text), text.trim().is_empty());
    }
}

#[test]
fn letters_are_lowered() {
    let text: String = ('\0'..'\u{300}').collect();
    assert_eq!(
        from_chars(&lowered(&to_chars(&text))),
        text.to_ascii_lowercase()
    );
    assert!(same_ignoring_case(&to_chars("aBc"), &to_chars("AbC")));
    assert!(!same_ignoring_case(&to_chars("É"), &to_chars("é")));
}

#[test]
fn texts_are_cut() {
    let chars = to_chars("a::b::c");
    let pat = to_chars("::");
    let (before, after) = cut(&chars, &pat).unwrap();
    assert_eq!(from_chars(before), "a");
    assert_eq!(from_chars(after), "b::c");
    assert!(cut(&chars, &to_chars("x")).is_none());
    let (before, after) = cut_last(&chars, ':').unwrap();
    assert_eq!(from_chars(before), "a::b:");
    assert_eq!(from_chars(after), "c");
    assert_eq!(strings(pieces(&chars, &pat)), ["a", "b", "c"]);
    assert_eq!(strings(pieces(&[], &pat)), [""]);
}

#[test]
fn lines_end_at_line_feeds() {
    for text in ["", "\n", "a", "a\n", "a\r\nb\r", "a\r\r\n\nb", "\r\n\r\n", "\r"] {
        let chars = to_chars(text);
        assert_eq!(
            strings(line_slices(&chars)),
            text.lines().collect::<Vec<&str>>()
        );
    }
}

#[test]
fn words_end_at_whitespace() {
    let chars = to_chars(" one\u{3000}two ");
    let (first, rest) = word(&chars);
    assert_eq!(from_chars(first), "one");
    let (second, rest) = word(rest);
    assert_eq!(from_chars(second), "two");
    assert_eq!(word(rest).0.len(), 0);
}

#[test]
fn numbers_are_written_in_base_ten() {
    for n in [0, 7, 10, 99, 100, 65535, u64::MAX] {
        assert_eq!(number(n), n.to_string());
    }
}

#[test]
fn ports_are_read_back() {
    for port in [0, 1, 22, 443, 65535] {
        assert_eq!(port_value(&to_chars(&number(port as u64))), Some(port));
    }
    for text in ["", "+", "-1", "1 ", "65536", "99999999999999999999", "٣", "+0443"] {
        assert_eq!(port_value(&to_chars(text)), text.parse().ok());
    }
}

#[test]
fn id_set_holds_each_id_once() {
    let mut set = IdSet::new();
    assert!(set.is_empty());
    set.insert("a".to_string());
    set.insert("b".to_string());
    set.insert("a".to_string());
    assert_eq!(set.ids(), &["a", "b"]);
    set.remove("a");
    set.remove("x");
    assert!(!set.contains("a"));
    assert!(set.contains("b"));
    set.clear();
    assert!(set.is_empty());
}

#[test]
fn id_map_keeps_the_last_value() {
    let mut map = IdMap::new();
    map.insert("a".to_string(), 1);
    map.insert("b".to_string(), 2);
    map.insert("a".to_string(), 3);
    assert_eq!(map.len(), 2);
    assert_eq!(map.get("a"), Some(&3));
    assert_eq!(map.remove("b"), Some(2));
    assert_eq!(map.remove("b"), None);
    assert_eq!(map.keys(), &["a"]);
    assert_eq!(map.values(), &[3]);
    assert_eq!(map.drain(), [3]);
    assert_eq!(map.len(), 0);
}
