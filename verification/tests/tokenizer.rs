use kokoroxide::tokenizer::{
    frame, longest_match, tokenize, TokenizeError, Tokenizer, Vocabulary, DEFAULT_MAX_LENGTH,
};

fn small_vocabulary() -> Vocabulary {
    let mut vocab = Vocabulary::new();
    vocab.insert("$", 0);
    vocab.insert("a", 1);
    vocab.insert("ab", 2);
    vocab.insert("b", 3);
    vocab
}

fn counting_vocabulary() -> Vocabulary {
    let mut vocab = Vocabulary::new();
    vocab.insert("$", 99);
    vocab.insert("a", 10);
    vocab.insert("b", 11);
    vocab.insert("c", 12);
    vocab.insert("d", 13);
    vocab.insert("e", 14);
    vocab
}

#[test]
fn construction_takes_both_sentinels_from_the_dollar_symbol() {
    let tokenizer = Tokenizer::new(counting_vocabulary()).unwrap();
    assert_eq!(tokenizer.bos_id(), 99);
    assert_eq!(tokenizer.eos_id(), 99);
    assert_eq!(tokenizer.bos_id(), tokenizer.vocab().get("$").unwrap());
    assert_eq!(tokenizer.model_max_length(), 512);
    assert_eq!(DEFAULT_MAX_LENGTH, 512);
}

#[test]
fn construction_fails_without_the_dollar_symbol() {
    let mut vocab = Vocabulary::new();
    vocab.insert("a", 1);
    assert!(matches!(Tokenizer::new(vocab), Err(TokenizeError::MissingSentinel)));
    assert!(matches!(Tokenizer::new(Vocabulary::new()), Err(TokenizeError::MissingSentinel)));
}

#[test]
fn negative_and_repeated_ids_are_kept() {
    let mut vocab = Vocabulary::new();
    vocab.insert("$", -7);
    vocab.insert("$", -8);
    let tokenizer = Tokenizer::new(vocab).unwrap();
    assert_eq!(tokenizer.bos_id(), -8);
    assert_eq!(tokenizer.encode_phonemes("", None), vec![-8, -8]);
}

#[test]
fn longest_match_prefers_the_longer_symbol() {
    let tokenizer = Tokenizer::new(small_vocabulary()).unwrap();
    assert_eq!(tokenizer.tokenize_longest("ab"), vec![2]);
    assert_eq!(tokenizer.tokenize_longest("aab"), vec![1, 2]);
    assert_eq!(tokenizer.tokenize_longest("ba"), vec![3, 1]);
    assert_eq!(tokenizer.tokenize_longest("abab"), vec![2, 2]);
}

#[test]
fn encode_frames_the_ids_with_the_sentinels() {
    let tokenizer = Tokenizer::new(small_vocabulary()).unwrap();
    assert_eq!(tokenizer.encode_phonemes("ab", None), vec![0, 2, 0]);
    assert_eq!(tokenizer.encode_phonemes("ba", Some(10)), vec![0, 3, 1, 0]);
}

#[test]
fn empty_and_blank_input_give_the_two_sentinels() {
    let tokenizer = Tokenizer::new(small_vocabulary()).unwrap();
    assert_eq!(tokenizer.encode_phonemes("", None), vec![0, 0]);
    assert_eq!(tokenizer.encode_phonemes("  \t\n", None), vec![0, 0]);
}

#[test]
fn truncation_keeps_the_head_and_both_sentinels() {
    let tokenizer = Tokenizer::new(counting_vocabulary()).unwrap();
    assert_eq!(tokenizer.tokenize_longest("abcde"), vec![10, 11, 12, 13, 14]);
    assert_eq!(tokenizer.encode_phonemes("abcde", Some(5)), vec![99, 10, 11, 12, 99]);
    assert_eq!(tokenizer.encode_phonemes("abcde", Some(4)), vec![99, 10, 11, 99]);
    assert_eq!(tokenizer.encode_phonemes("abcde", Some(3)), vec![99, 10, 99]);
    assert_eq!(tokenizer.encode_phonemes("abcde", Some(2)), vec![99, 99]);
}

#[test]
fn limit_that_is_just_enough_cuts_nothing() {
    let tokenizer = Tokenizer::new(counting_vocabulary()).unwrap();
    assert_eq!(tokenizer.encode_phonemes("abcde", Some(7)), vec![99, 10, 11, 12, 13, 14, 99]);
    assert_eq!(tokenizer.encode_phonemes("abcde", Some(6)), vec![99, 10, 11, 12, 13, 99]);
    assert_eq!(tokenizer.encode_phonemes("abcde", Some(usize::MAX)).len(), 7);
}

#[test]
fn limit_below_two_still_gives_both_sentinels() {
    let tokenizer = Tokenizer::new(counting_vocabulary()).unwrap();
    assert_eq!(tokenizer.encode_phonemes("abcde", Some(1)), vec![99, 99]);
    assert_eq!(tokenizer.encode_phonemes("abcde", Some(0)), vec![99, 99]);
}

#[test]
fn output_never_exceeds_a_limit_of_two_or_more() {
    let tokenizer = Tokenizer::new(counting_vocabulary()).unwrap();
    let text = "abcdeabcdeabcde";
    for limit in 2..20 {
        let ids = tokenizer.encode_phonemes(text, Some(limit));
        assert!(ids.len() <= limit);
        assert_eq!(ids[0], 99);
        assert_eq!(ids[ids.len() - 1], 99);
        let inner = tokenizer.tokenize_longest(text);
        assert_eq!(&ids[1..ids.len() - 1], &inner[..ids.len() - 2]);
    }
}

#[test]
fn encoding_twice_gives_the_same_ids() {
    let tokenizer = Tokenizer::new(counting_vocabulary()).unwrap();
    let once = tokenizer.encode_phonemes("a b?c", None);
    let again = tokenizer.encode_phonemes("a b?c", None);
    assert_eq!(once, again);
    assert_eq!(once.len(), tokenizer.tokenize_longest("a b?c").len() + 2);
}

#[test]
fn default_limit_is_used_without_a_limit() {
    let tokenizer = Tokenizer::new(counting_vocabulary()).unwrap();
    let long = "a".repeat(600);
    let ids = tokenizer.encode_phonemes(&long, None);
    assert_eq!(ids.len(), 512);
    assert_eq!(ids[511], 99);
    assert_eq!(ids[510], 10);
    assert_eq!(tokenizer.encode_phonemes(&long, Some(9)).len(), 9);
    assert_eq!(tokenizer.encode_phonemes(&long, Some(700)).len(), 602);
}

#[test]
fn unknown_characters_are_passed_over_and_reported() {
    let tokenizer = Tokenizer::new(small_vocabulary()).unwrap();
    let out = tokenizer.tokenize_with_unknown("a?b z\u{00A0}a");
    assert_eq!(out.ids, vec![1, 3, 1]);
    assert_eq!(out.unknown, vec!['?', 'z']);
}

#[test]
fn whitespace_in_the_vocabulary_is_a_symbol() {
    let mut vocab = small_vocabulary();
    vocab.insert(" ", 16);
    let tokenizer = Tokenizer::new(vocab).unwrap();
    let out = tokenizer.tokenize_with_unknown("a b");
    assert_eq!(out.ids, vec![1, 16, 3]);
    assert!(out.unknown.is_empty());
}

#[test]
fn symbols_are_measured_in_characters() {
    let mut vocab = Vocabulary::new();
    vocab.insert("$", 0);
    vocab.insert("\u{0259}", 5);
    vocab.insert("\u{0259}\u{0279}", 6);
    vocab.insert("\u{02C8}", 7);
    assert_eq!(vocab.max_token_chars(), 2);
    let tokenizer = Tokenizer::new(vocab).unwrap();
    assert_eq!(tokenizer.tokenize_longest("\u{02C8}\u{0259}\u{0279}\u{0259}"), vec![7, 6, 5]);
}

#[test]
fn longest_symbol_length() {
    let mut vocab = Vocabulary::new();
    assert_eq!(vocab.max_token_chars(), 1);
    vocab.insert("", 3);
    assert_eq!(vocab.max_token_chars(), 0);
    vocab.insert("abc", 4);
    assert_eq!(vocab.max_token_chars(), 3);
    vocab.insert("a", 5);
    assert_eq!(vocab.max_token_chars(), 3);
}

#[test]
fn the_empty_symbol_is_never_matched() {
    let mut vocab = small_vocabulary();
    vocab.insert("", 42);
    let tokenizer = Tokenizer::new(vocab).unwrap();
    assert_eq!(tokenizer.tokenize_longest("a?"), vec![1]);
}

#[test]
fn vocabulary_lookup() {
    let mut vocab = Vocabulary::new();
    vocab.insert("$", 0);
    vocab.insert("a", 1);
    vocab.insert("a", 2);
    assert_eq!(vocab.get("$"), Some(0));
    assert_eq!(vocab.get("a"), Some(2));
    assert_eq!(vocab.get("b"), None);
}

#[test]
fn longest_match_at_a_position() {
    let vocab = small_vocabulary();
    let chars: Vec<char> = "xab".chars().collect();
    assert_eq!(longest_match(&vocab, &chars, 0), None);
    assert_eq!(longest_match(&vocab, &chars, 1), Some((2, 2)));
    assert_eq!(longest_match(&vocab, &chars, 2), Some((1, 3)));
    assert_eq!(longest_match(&vocab, &chars, 3), None);
    assert_eq!(longest_match(&vocab, &chars, 9), None);
    let out = tokenize(&vocab, &chars);
    assert_eq!(out.ids, vec![2]);
    assert_eq!(out.unknown, vec!['x']);
}

#[test]
fn frame_by_itself() {
    assert_eq!(frame(1, 2, &[], 512), vec![1, 2]);
    assert_eq!(frame(1, 2, &[7, 8, 9], 5), vec![1, 7, 8, 9, 2]);
    assert_eq!(frame(1, 2, &[7, 8, 9], 4), vec![1, 7, 8, 2]);
    assert_eq!(frame(1, 2, &[7, 8, 9], 0), vec![1, 2]);
    let tokenizer = Tokenizer::new(small_vocabulary()).unwrap();
    assert_eq!(tokenizer.frame_ids(&[7, 8, 9], Some(4)), vec![0, 7, 8, 0]);
    assert_eq!(tokenizer.frame_ids(&[7, 8, 9], None), vec![0, 7, 8, 9, 0]);
}
