use libthere::text::{decimal, join, lines, split_char, starts_with};
use libthere::log::keep_frame;
use libthere::agent::key_is_authorized;

fn strings(v: &[&str]) -> Vec<String> {
    v.iter().map(|s| s.to_string()).collect()
}

#[test]
fn decimals() {
    assert_eq!(decimal(0), "0");
    assert_eq!(decimal(7), "7");
    assert_eq!(decimal(10), "10");
    assert_eq!(decimal(2345), "2345");
    assert_eq!(decimal(u64::MAX), u64::MAX.to_string());
}

#[test]
fn joining_and_splitting() {
    assert_eq!(join(&strings(&["a", "b", "c"]), ", "), "a, b, c");
    assert_eq!(join(&strings(&[]), " "), "");
    assert_eq!(join(&strings(&["x"]), " "), "x");
    assert_eq!(split_char("a\nb", '\n'), strings(&["a", "b"]));
    assert_eq!(split_char("", '\n'), strings(&[""]));
    assert_eq!(split_char("a\n", '\n'), strings(&["a", ""]));
    assert_eq!(split_char("\n\n", '\n'), strings(&["", "", ""]));
}

#[test]
fn lines_like_str_lines() {
    for text in ["", "a", "a\n", "a\r\nb", "a\n\nb\n", "x\r", "\n", "k1\r\nk2\r\n"] {
        let expected: Vec<String> = text.lines().map(|l| l.to_string()).collect();
        assert_eq!(lines(text), expected, "text {:?}", text);
    }
}

#[test]
fn prefixes() {
    assert!(starts_with("tokio::spawn", "tokio::"));
    assert!(!starts_with("tok", "tokio::"));
    assert!(starts_with("x", ""));
}

#[test]
fn frames_of_the_runtime_are_filtered() {
    assert!(!keep_frame(None));
    assert!(!keep_frame(Some("tokio::runtime::park")));
    assert!(!keep_frame(Some("tracing::span")));
    assert!(!keep_frame(Some("color_eyre::hook")));
    assert!(!keep_frame(Some("<core::future::X>::poll")));
    assert!(keep_frame(Some("there_cli::main")));
}

#[test]
fn the_agent_finds_an_authorized_key() {
    let key = "ssh-ed25519 AAAA there-controller".to_string();
    assert!(key_is_authorized("other\nssh-ed25519 AAAA there-controller\n", &key));
    assert!(key_is_authorized("ssh-ed25519 AAAA there-controller\r\n", &key));
    assert!(!key_is_authorized("ssh-ed25519 AAAA there-controller extra\n", &key));
    assert!(!key_is_authorized("", &key));
}
