use codechain_process::text::{chars_of, is_whitespace, split_whitespace};

fn std_tokens(s: &str) -> Vec<String> {
    s.split_whitespace().map(|t| t.to_string()).collect()
}

#[test]
fn splits_at_blanks() {
    assert_eq!(split_whitespace("--port 1234  --no-miner"), vec!["--port", "1234", "--no-miner"]);
}

#[test]
fn blank_strings_have_no_tokens() {
    assert!(split_whitespace("").is_empty());
    assert!(split_whitespace(" \t\r\n ").is_empty());
}

#[test]
fn leading_and_trailing_blanks_are_dropped() {
    assert_eq!(split_whitespace("  a  "), vec!["a"]);
    assert_eq!(split_whitespace("\na\tb\n"), vec!["a", "b"]);
}

#[test]
fn single_token_is_kept_whole() {
    assert_eq!(split_whitespace("codechain"), vec!["codechain"]);
}

#[test]
fn unicode_blanks_separate_tokens() {
    assert_eq!(split_whitespace("a\u{a0}b\u{3000}c\u{2028}d\u{85}e"), vec!["a", "b", "c", "d", "e"]);
    assert_eq!(split_whitespace("é\u{2003}日本 語"), vec!["é", "日本", "語"]);
    // not white space: zero width space, Mongolian vowel separator
    assert_eq!(split_whitespace("a\u{200b}b\u{180e}c"), vec!["a\u{200b}b\u{180e}c"]);
}

#[test]
fn splitting_agrees_with_std() {
    for s in ["", " ", "a", "a b", " a  b ", "x=1\ny=2", "\u{1680}a\u{205f}b\u{202f}", "--port\t1\r\n--jsonrpc-port\u{b}2\u{c}"] {
        assert_eq!(split_whitespace(s), std_tokens(s), "{:?}", s);
    }
}

#[test]
fn whitespace_agrees_with_std_on_every_char() {
    for n in 0..=0x10FFFFu32 {
        if let Some(c) = char::from_u32(n) {
            assert_eq!(is_whitespace(c), c.is_whitespace(), "U+{:04X}", n);
        }
    }
}

#[test]
fn chars_are_decoded_in_order() {
    assert_eq!(chars_of("aé日"), vec!['a', 'é', '日']);
    assert!(chars_of("").is_empty());
}
