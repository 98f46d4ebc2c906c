use jito_miner::text::{begins_with, chars_of, contains_text, decimal_text, same_text};

#[test]
fn decimal_text_writes_numbers_like_rust() {
    for n in [0u64, 7, 9, 10, 11, 99, 100, 101, 1_000_000, 1_234_567_890, u64::MAX] {
        assert_eq!(decimal_text(n), n.to_string());
    }
}

#[test]
fn contains_text_finds_runs_of_characters() {
    assert!(contains_text("https://api.testnet.solana.com", "testnet"));
    assert!(contains_text("testnet", "testnet"));
    assert!(contains_text("anything", ""));
    assert!(contains_text("", ""));
    assert!(!contains_text("", "t"));
    assert!(!contains_text("test net", "testnet"));
    assert!(!contains_text("testne", "testnet"));
    assert!(contains_text("aaab", "aab"));
    assert!(contains_text("größer", "ß"));
}

#[test]
fn begins_with_looks_at_the_start_only() {
    assert!(begins_with("https://a", "https"));
    assert!(!begins_with("http://a", "https"));
    assert!(!begins_with("see https", "https"));
    assert!(!begins_with("ht", "https"));
    assert!(begins_with("x", ""));
}

#[test]
fn same_text_compares_whole_texts() {
    assert!(same_text("", ""));
    assert!(same_text("größe", "größe"));
    assert!(!same_text("abc", "abd"));
    assert!(!same_text("abc", "ab"));
    assert!(!same_text("ab", "abc"));
}

#[test]
fn chars_of_keeps_order() {
    assert_eq!(chars_of("aé€"), vec!['a', 'é', '€']);
    assert_eq!(chars_of(""), Vec::<char>::new());
}
