use trash_typer::text::{
    Key, char_len, highlight_characters, highlighted_len, remove_highlight, starts_with,
    typed_candidate,
};
use trash_typer::words::{AvailableWords, WordBankError};

#[test]
fn load_partitions_by_initial_letter() {
    let bank = AvailableWords::load("apple\nbanana\n\navocado\nZebra\n9lives\nbee").unwrap();
    assert_eq!(bank.buckets.len(), 26);
    assert_eq!(bank.buckets[0], vec!["apple".to_string(), "avocado".to_string()]);
    assert_eq!(bank.buckets[1], vec!["banana".to_string(), "bee".to_string()]);
    assert!(bank.buckets[25].is_empty());
    let total: usize = bank.buckets.iter().map(|b| b.len()).sum();
    assert_eq!(total, 4);
}

#[test]
fn load_keeps_last_line_without_newline() {
    let bank = AvailableWords::load("zoo").unwrap();
    assert_eq!(bank.buckets[25], vec!["zoo".to_string()]);
    assert_eq!(bank.nonempty_count(), 1);
}

#[test]
fn load_refuses_lists_without_words() {
    assert_eq!(AvailableWords::load("").err(), Some(WordBankError::EmptyCorpus));
    assert_eq!(AvailableWords::load("\n\n").err(), Some(WordBankError::EmptyCorpus));
    assert_eq!(AvailableWords::load("42\nHello\n").err(), Some(WordBankError::EmptyCorpus));
}

#[test]
fn pick_word_follows_the_draws() {
    let bank = AvailableWords::load("apple\navocado\ncherry\nzoo").unwrap();
    assert_eq!(bank.nonempty_count(), 3);
    assert_eq!(bank.nth_nonempty_bucket(0), 0);
    assert_eq!(bank.nth_nonempty_bucket(1), 2);
    assert_eq!(bank.nth_nonempty_bucket(2), 25);
    assert_eq!(bank.pick_word(0, 1), Some("avocado".to_string()));
    assert_eq!(bank.pick_word(1, 0), Some("cherry".to_string()));
    assert_eq!(bank.pick_word(2, 0), Some("zoo".to_string()));
    assert_eq!(bank.pick_word(3, 0), None);
    assert_eq!(bank.pick_word(1, 1), None);
}

#[test]
fn random_words_come_from_the_bank() {
    let bank = AvailableWords::load("apple\navocado\ncherry\nzoo").unwrap();
    let all = ["apple", "avocado", "cherry", "zoo"];
    for _ in 0..50 {
        let w = bank.get_random_word();
        assert!(all.contains(&w.as_str()));
    }
}

#[test]
fn typed_candidate_applies_keys_in_order() {
    let keys = vec![Key::Letter('c'), Key::Letter('A'), Key::Back, Key::Letter('a'), Key::Letter('t')];
    assert_eq!(typed_candidate(&"x".to_string(), &keys), "xat");
    assert_eq!(typed_candidate(&"".to_string(), &vec![Key::Back]), "");
    assert_eq!(typed_candidate(&"ab".to_string(), &vec![Key::Back, Key::Back, Key::Back]), "");
}

#[test]
fn prefix_checks() {
    assert!(starts_with(&"cat".to_string(), &"ca".to_string()));
    assert!(starts_with(&"cat".to_string(), &"".to_string()));
    assert!(starts_with(&"cat".to_string(), &"cat".to_string()));
    assert!(!starts_with(&"cat".to_string(), &"cats".to_string()));
    assert!(!starts_with(&"cat".to_string(), &"co".to_string()));
    assert_eq!(char_len(&"héllo".to_string()), 5);
}

#[test]
fn highlight_counts_typed_characters() {
    assert_eq!(highlighted_len(&"cat".to_string(), &"ca".to_string()), 2);
    assert_eq!(highlighted_len(&"cat".to_string(), &"cat".to_string()), 3);
    assert_eq!(highlighted_len(&"cat".to_string(), &"co".to_string()), 0);
    assert_eq!(highlighted_len(&"cat".to_string(), &"cats".to_string()), 0);
}

#[test]
fn highlight_styles() {
    let sections = vec![0u8, 0, 0, 0];
    assert_eq!(highlight_characters(&sections, 2, 7u8, 1u8), vec![7, 7, 1, 1]);
    assert_eq!(highlight_characters(&sections, 0, 7u8, 1u8), vec![1, 1, 1, 1]);
    assert_eq!(highlight_characters(&sections, 4, 7u8, 1u8), vec![7, 7, 7, 7]);
    assert_eq!(remove_highlight(&sections, 3u8), vec![3, 3, 3, 3]);
}
