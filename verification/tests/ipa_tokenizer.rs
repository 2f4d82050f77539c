use kokoroxide::ipa_tokenizer::IpaTokenizer;
use kokoroxide::tokenizer::{TokenizeError, Vocabulary};

const WORD_CASES: [(&str, &str); 16] = [
    ("#h\u{025B}l\u{02C8}o\u{028A}#", "h\u{025B}l\u{02C8}O"),
    ("#w\u{02C8}\u{025C}\u{02D0}ld#", "w\u{02C8}\u{025C}ld"),
    ("#\u{02C8}a\u{026A}#", "\u{02C8}I"),
    ("#\u{0259}#", "\u{0259}"),
    ("b\u{02C8}\u{028C}t.n\u{0329}", "b\u{02C8}\u{028C}t\u{0259}n"),
    ("d\u{0292}\u{02C8}\u{028C}mp", "\u{02A4}\u{02C8}\u{028C}mp"),
    ("t\u{0283}\u{02C8}iz", "\u{02A7}\u{02C8}iz"),
    ("g\u{02C8}o\u{028A}", "\u{0261}\u{02C8}O"),
    ("\u{02C8}\u{025C}\u{02DE}\u{03B8}", "\u{02C8}\u{025D}\u{03B8}"),
    ("b\u{02C8}\u{0275}k", "b\u{02C8}\u{0259}k"),
    ("w\u{02C8}\u{0254}t\u{0259}r", "w\u{02C8}\u{0254}t\u{025A}"),
    ("a#b", "ab"),
    ("", ""),
    ("ei ai au ou oi", "A I W O Y"),
    ("\u{0279}\u{0329}", "\u{0279}"),
    ("l\u{0329}m\u{0329}", "\u{0259}l\u{0259}m"),
];

fn ipa_vocabulary() -> Vocabulary {
    let mut vocab = Vocabulary::new();
    vocab.insert("$", 0);
    vocab.insert(" ", 16);
    vocab.insert("a", 43);
    vocab.insert("e", 47);
    vocab.insert("o", 57);
    vocab.insert("t", 62);
    vocab.insert("d", 46);
    vocab.insert("h", 50);
    vocab.insert("\u{026A}", 102);
    vocab.insert("\u{028A}", 135);
    vocab.insert("\u{0254}", 76);
    vocab.insert("\u{02A7}", 133);
    vocab.insert("\u{02A4}", 82);
    vocab.insert("\u{0283}", 131);
    vocab.insert("\u{02C8}", 156);
    vocab.insert("I", 21);
    vocab
}

fn ipa_tokenizer() -> IpaTokenizer {
    IpaTokenizer::new(ipa_vocabulary()).unwrap()
}

#[test]
fn word_transcriptions_become_misaki_phonemes() {
    let tokenizer = ipa_tokenizer();
    for (ipa, expected) in WORD_CASES {
        assert_eq!(tokenizer.ipa_to_misaki(ipa), expected, "for {:?}", ipa);
    }
}

#[test]
fn ipa_tokenizer_needs_the_dollar_symbol() {
    assert!(matches!(IpaTokenizer::new(Vocabulary::new()), Err(TokenizeError::MissingSentinel)));
    assert_eq!(ipa_tokenizer().as_tokenizer().bos_id(), 0);
    assert_eq!(ipa_tokenizer().as_tokenizer().eos_id(), 0);
}

#[test]
fn words_are_cleaned_before_they_are_transcribed() {
    assert_eq!(IpaTokenizer::clean_words("Hello, World!"), vec!["hello", "world"]);
    assert_eq!(IpaTokenizer::clean_words("  It's  2024 -- OK?\n"), vec!["its", "ok"]);
    assert_eq!(IpaTokenizer::clean_words(""), Vec::<String>::new());
    assert_eq!(IpaTokenizer::clean_words(" \t "), Vec::<String>::new());
    assert_eq!(IpaTokenizer::clean_words("\u{00C9}t\u{00E9}\u{00A0}X"), vec!["\u{00E9}t\u{00E9}", "x"]);
}

#[test]
fn unanswered_short_words_have_their_own_transcription() {
    let tokenizer = ipa_tokenizer();
    assert_eq!(tokenizer.word_to_misaki("i", ""), "\u{02C8}I");
    assert_eq!(tokenizer.word_to_misaki("i", " # "), "\u{02C8}I");
    assert_eq!(tokenizer.word_to_misaki("a", "#"), "\u{0259}");
    assert_eq!(tokenizer.word_to_misaki("a", "  "), "\u{0259}");
    assert_eq!(tokenizer.word_to_misaki("b", "#"), "");
    assert_eq!(tokenizer.word_to_misaki("b", ""), "");
    assert_eq!(tokenizer.word_to_misaki("ia", "#"), "");
}

#[test]
fn answered_words_are_trimmed_and_rewritten() {
    let tokenizer = ipa_tokenizer();
    assert_eq!(tokenizer.word_to_misaki("i", "#\u{02C8}i#"), "\u{02C8}i");
    assert_eq!(tokenizer.word_to_misaki("hello", " #h\u{025B}l\u{02C8}o\u{028A}#\n"), "h\u{025B}l\u{02C8}O");
    assert_eq!(tokenizer.word_to_misaki("a", "##"), "");
}

#[test]
fn phoneme_strings_of_words_are_joined_by_spaces() {
    let tokenizer = ipa_tokenizer();
    let words = vec!["i".to_string(), "go".to_string(), "a".to_string()];
    let raws = vec!["#".to_string(), "#g\u{02C8}o\u{028A}#".to_string(), "".to_string()];
    assert_eq!(tokenizer.join_words(&words, &raws), "\u{02C8}I \u{0261}\u{02C8}O \u{0259}");
    assert_eq!(tokenizer.join_words(&[], &[]), "");
    assert_eq!(tokenizer.join_words(&words[..1], &raws[..1]), "\u{02C8}I");
    assert_eq!(tokenizer.join_words(&words[..2], &raws[..1]), "\u{02C8}I ");
}

#[test]
fn groups_are_mapped_to_the_symbols_of_the_vocabulary() {
    let tokenizer = ipa_tokenizer();
    assert_eq!(tokenizer.map_ipa_to_tokens("e\u{026A}"), vec!["e", "\u{026A}"]);
    assert_eq!(tokenizer.map_ipa_to_tokens("a\u{026A}"), vec!["a", "\u{026A}"]);
    assert_eq!(tokenizer.map_ipa_to_tokens("\u{0254}\u{026A}"), vec!["\u{0254}", "\u{026A}"]);
    assert_eq!(tokenizer.map_ipa_to_tokens("a\u{028A}"), vec!["a", "\u{028A}"]);
    assert_eq!(tokenizer.map_ipa_to_tokens("o\u{028A}"), vec!["o", "\u{028A}"]);
    assert_eq!(tokenizer.map_ipa_to_tokens("t\u{0283}"), vec!["\u{02A7}"]);
    assert_eq!(tokenizer.map_ipa_to_tokens("d\u{0292}"), vec!["\u{02A4}"]);
    assert_eq!(tokenizer.map_ipa_to_tokens("e\u{028A}"), vec!["e\u{028A}"]);
    assert_eq!(tokenizer.map_ipa_to_tokens("o\u{026A}"), vec!["o\u{026A}"]);
    assert_eq!(tokenizer.map_ipa_to_tokens("\u{0254}\u{028A}"), vec!["\u{0254}\u{028A}"]);
    assert_eq!(tokenizer.map_ipa_to_tokens("x"), vec!["x"]);
    assert_eq!(tokenizer.map_ipa_to_tokens(""), vec![""]);
    assert_eq!(tokenizer.map_ipa_to_tokens("abc"), vec!["abc"]);
}

#[test]
fn phoneme_string_is_cut_into_groups() {
    let tokenizer = ipa_tokenizer();
    assert_eq!(tokenizer.encode_raw_ipa("a\u{026A}"), vec![43, 102]);
    assert_eq!(tokenizer.encode_raw_ipa("t\u{0283}a"), vec![133, 43]);
    assert_eq!(tokenizer.encode_raw_ipa("d\u{0292}"), vec![82]);
    assert_eq!(tokenizer.encode_raw_ipa("t\u{0283}\u{0283}"), vec![133, 131]);
    assert_eq!(tokenizer.encode_raw_ipa("h e"), vec![50, 16, 47]);
    assert_eq!(tokenizer.encode_raw_ipa("hxe"), vec![50, 47]);
    assert_eq!(tokenizer.encode_raw_ipa(""), Vec::<i64>::new());
}

#[test]
fn groups_that_are_no_diphthong_of_the_model_are_looked_up_whole() {
    let tokenizer = ipa_tokenizer();
    assert_eq!(tokenizer.encode_raw_ipa("e\u{028A}t"), vec![62]);
    assert_eq!(tokenizer.encode_raw_ipa("o\u{026A}"), Vec::<i64>::new());
    assert_eq!(tokenizer.encode_raw_ipa("t\u{026A}"), vec![62, 102]);
    let mut vocab = ipa_vocabulary();
    vocab.insert("e\u{028A}", 7);
    let tokenizer = IpaTokenizer::new(vocab).unwrap();
    assert_eq!(tokenizer.encode_raw_ipa("e\u{028A}t"), vec![7, 62]);
}

#[test]
fn phoneme_string_is_framed_and_cut() {
    let tokenizer = ipa_tokenizer();
    assert_eq!(tokenizer.encode_ipa("h a\u{026A}", None), vec![0, 50, 16, 43, 102, 0]);
    assert_eq!(tokenizer.encode_ipa("h a\u{026A}", Some(4)), vec![0, 50, 16, 0]);
    assert_eq!(tokenizer.encode_ipa("", None), vec![0, 0]);
    assert_eq!(tokenizer.encode_ipa("h", Some(0)), vec![0, 0]);
}
