use g_flite::error::Error;
use g_flite::partition::{partition, split_words, word_count};

#[test]
fn splits_six_words_into_two_equal_chunks() {
    let chunks = partition("a b c d e f", 2).unwrap();
    assert_eq!(chunks, vec!["a b c".to_string(), "d e f".to_string()]);
}

#[test]
fn final_chunk_may_be_shorter() {
    let chunks = partition("a b c d e", 2).unwrap();
    assert_eq!(chunks, vec!["a b c".to_string(), "d e".to_string()]);
}

#[test]
fn rejects_more_chunks_than_words() {
    let err = partition("a", 2).unwrap_err();
    assert_eq!(
        err,
        Error::Validation {
            detail: "cannot split input of 1 words into 2 subtasks".to_string()
        }
    );
    assert_eq!(
        err.message(),
        "cannot split input of 1 words into 2 subtasks"
    );
}

#[test]
fn one_chunk_per_word_when_counts_match() {
    let chunks = partition("a b c", 3).unwrap();
    assert_eq!(
        chunks,
        vec!["a".to_string(), "b".to_string(), "c".to_string()]
    );
}

#[test]
fn exact_division_gives_equal_chunks() {
    let chunks = partition("a b c d", 2).unwrap();
    assert_eq!(chunks, vec!["a b".to_string(), "c d".to_string()]);
}

#[test]
fn single_chunk_normalizes_whitespace() {
    let chunks = partition("alpha\tbeta\ngamma   delta", 1).unwrap();
    assert_eq!(chunks, vec!["alpha beta gamma delta".to_string()]);
}

#[test]
fn identical_arguments_give_identical_chunks() {
    let text = "the quick brown fox jumps over the lazy dog";
    let first = partition(text, 4).unwrap();
    let second = partition(text, 4).unwrap();
    assert_eq!(first, second);
}

#[test]
fn chunks_concatenate_to_original_words() {
    let text = "one two three four five six seven";
    let words = split_words(text);
    let chunks = partition(text, 3).unwrap();
    assert!(chunks.len() <= 3);
    let mut rejoined: Vec<String> = Vec::new();
    for chunk in &chunks {
        rejoined.extend(split_words(chunk.as_str()));
    }
    assert_eq!(rejoined, words);
}

#[test]
fn counts_words_across_whitespace_kinds() {
    assert_eq!(word_count(""), 0);
    assert_eq!(word_count("   \t\n"), 0);
    assert_eq!(word_count("one"), 1);
    assert_eq!(word_count("one  two\r\nthree"), 3);
}

#[test]
fn tokenizes_on_unicode_whitespace() {
    assert_eq!(word_count("a\u{a0}b\u{2003}c\u{3000}d"), 4);
    let chunks = partition("a\u{a0}b c\u{2028}d", 2).unwrap();
    assert_eq!(chunks, vec!["a b".to_string(), "c d".to_string()]);
}

#[test]
fn rejects_empty_text() {
    let err = partition("", 1).unwrap_err();
    assert_eq!(
        err,
        Error::Validation {
            detail: "cannot split input of 0 words into 1 subtasks".to_string()
        }
    );
}
