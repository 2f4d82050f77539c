use kokoroxide::espeak::g2p::blank;
use kokoroxide::espeak::{EspeakG2P, EspeakIpaTokenizer};
use kokoroxide::tokenizer::{TokenizeError, Vocabulary};

const MISAKI_CASES: [(&str, &str); 28] = [
    ("m\u{02C8}\u{025C}\u{02D0}t^\u{0283}\u{0259}nt\u{0283}\u{02CC}\u{026A}p", "m\u{02C8}\u{025C}\u{0279}\u{02A7}\u{0259}nt\u{0283}\u{02CC}\u{026A}p"),
    ("h\u{0259}l\u{02C8}o\u{0361}\u{028A}", "h\u{0259}l\u{02C8}O"),
    ("d\u{0292}\u{02C8}\u{028C}mp", "d\u{0292}\u{02C8}\u{028C}mp"),
    ("d\u{0361}\u{0292}\u{02C8}\u{028C}mp", "\u{02A4}\u{02C8}\u{028C}mp"),
    ("b\u{02C8}\u{028C}tn\u{0329}", "b\u{02C8}\u{028C}t\u{1D4A}n"),
    ("b\u{02C8}\u{0251}\u{02D0}ks", "b\u{02C8}\u{0251}ks"),
    ("get", "gAt"),
    ("\u{0294}\u{02CC}n\u{0329}", "t\u{1D4A}n"),
    ("p\u{02C8}\u{026A}ks\u{0259}\u{0361}l", "p\u{02C8}\u{026A}ks\u{1D4A}l"),
    ("x\u{0329}\u{0329}y", "\u{1D4A}ky"),
    ("", ""),
    ("k\u{02C8}\u{00E6}\u{0303}t", "k\u{02C8}\u{00E6}t"),
    ("h\u{02C8}\u{025C}\u{02D0}", "h\u{02C8}\u{025C}\u{0279}"),
    ("f\u{02C8}\u{026A}\u{0259}", "f\u{02C8}i\u{0259}"),
    ("r\u{02C8}\u{025B}d", "\u{0279}\u{02C8}\u{025B}d"),
    ("\u{02C8}e\u{0361}\u{026A}\u{0292}\u{0259}", "\u{02C8}A\u{0292}\u{0259}"),
    ("b\u{02C8}\u{0250}t", "b\u{02C8}\u{0259}t"),
    ("s\u{02C8}\u{0254}\u{0361}\u{026A}", "s\u{02C8}Y"),
    ("h\u{02CC}a\u{0361}\u{028A}", "h\u{02CC}W"),
    ("\u{0294}n", "t\u{1D4A}n"),
    ("b\u{02C8}\u{028C}\u{027E}\u{025A}", "b\u{02C8}\u{028C}\u{027E}\u{0259}\u{0279}"),
    ("w\u{02C8}\u{025C}\u{02D0}\u{0279}d", "w\u{02C8}\u{025C}\u{0279}d"),
    ("l\u{02C8}\u{0252}t", "l\u{02C8}\u{0252}t"),
    ("\u{02B2}O\u{02B2}Q\u{02B2}", "jOjQ"),
    ("b\u{02C8}e\u{0361}\u{0259}t", "b\u{02C8}A\u{0259}t"),
    ("\u{0259}\u{0361}\u{028A}", "\u{0259}\u{028A}"),
    ("i\u{0259}", "i\u{0259}"),
    ("x\u{00E7}\u{026C}", "kkl"),
];

fn misaki_vocabulary() -> Vocabulary {
    let mut vocab = Vocabulary::new();
    vocab.insert("$", 0);
    let symbols = "AIWYbdfhijklmnpstuvwz\u{00F0}\u{014B}\u{0251}\u{0254}\u{0259}\u{025B}\u{025C}\u{0261}\u{026A}\u{0279}\u{0283}\u{028A}\u{028C}\u{0292}\u{02A4}\u{02A7}\u{02C8}\u{02CC}\u{03B8}\u{1D4A}O\u{00E6}\u{027E}\u{1D7B}";
    for (i, c) in symbols.chars().enumerate() {
        vocab.insert(&c.to_string(), i as i64 + 1);
    }
    vocab.insert(" ", 100);
    vocab
}

fn misaki_tokenizer() -> EspeakIpaTokenizer {
    EspeakIpaTokenizer::new(misaki_vocabulary()).unwrap()
}

#[test]
fn espeak_transcriptions_become_misaki_phonemes() {
    let tokenizer = misaki_tokenizer();
    for (ipa, expected) in MISAKI_CASES {
        assert_eq!(tokenizer.espeak_ipa_to_misaki(ipa), expected, "for {:?}", ipa);
    }
}

#[test]
fn merchantship_as_documented() {
    let tokenizer = misaki_tokenizer();
    assert_eq!(
        tokenizer.espeak_ipa_to_misaki("m\u{02C8}\u{025C}\u{02D0}t^\u{0283}\u{0259}nt\u{0283}\u{02CC}\u{026A}p"),
        "m\u{02C8}\u{025C}\u{0279}\u{02A7}\u{0259}nt\u{0283}\u{02CC}\u{026A}p"
    );
}

#[test]
fn stress_marks_and_unknown_characters_survive() {
    let tokenizer = misaki_tokenizer();
    assert_eq!(tokenizer.espeak_ipa_to_misaki("\u{02C8}\u{02CC}?!"), "\u{02C8}\u{02CC}?!");
}

#[test]
fn espeak_tokenizer_needs_the_dollar_symbol() {
    let mut vocab = Vocabulary::new();
    vocab.insert("a", 1);
    assert!(matches!(EspeakIpaTokenizer::new(vocab), Err(TokenizeError::MissingSentinel)));
    let tokenizer = misaki_tokenizer();
    assert_eq!(tokenizer.as_tokenizer().bos_id(), 0);
    assert_eq!(tokenizer.as_tokenizer().eos_id(), 0);
    assert_eq!(tokenizer.as_tokenizer().model_max_length(), 512);
}

#[test]
fn espeak_max_token_chars() {
    assert_eq!(EspeakIpaTokenizer::max_token_chars(&misaki_vocabulary()), 1);
    assert_eq!(EspeakIpaTokenizer::max_token_chars(&Vocabulary::new()), 1);
}

#[test]
fn espeak_encode_maps_then_tokenizes() {
    let tokenizer = misaki_tokenizer();
    // "h\u{0259}l\u{02C8}o\u{0361}\u{028A}" becomes "h\u{0259}l\u{02C8}O"
    let ids = tokenizer.encode("h\u{0259}l\u{02C8}o\u{0361}\u{028A}", None).unwrap();
    assert_eq!(ids, vec![0, 8, 26, 12, 38, 42, 0]);
    assert_eq!(tokenizer.tokenize_longest("h\u{0259}l\u{02C8}O"), vec![8, 26, 12, 38, 42]);
    assert_eq!(tokenizer.encode_phonemes("h\u{0259}l\u{02C8}O", None).unwrap(), ids);
}

#[test]
fn espeak_encode_truncates() {
    let tokenizer = misaki_tokenizer();
    let ids = tokenizer.encode("h\u{0259}l\u{02C8}o\u{0361}\u{028A}", Some(4)).unwrap();
    assert_eq!(ids, vec![0, 8, 26, 0]);
}

#[test]
fn espeak_encode_of_an_empty_transcription_fails() {
    let tokenizer = misaki_tokenizer();
    assert_eq!(tokenizer.encode("", None), Err(TokenizeError::NoPhonemes));
    assert_eq!(tokenizer.encode_phonemes("", None), Ok(vec![0, 0]));
}

#[test]
fn espeak_unknown_symbols_are_reported() {
    let tokenizer = misaki_tokenizer();
    let out = tokenizer.tokenize_with_unknown("h\u{025A} q");
    assert_eq!(out.ids, vec![8, 100]);
    assert_eq!(out.unknown, vec!['\u{025A}', 'q']);
}

#[test]
fn transcript_joins_sentences_with_single_spaces() {
    let mut g2p = EspeakG2P::new();
    assert!(g2p.accept(Some("h\u{0259}l\u{02C8}o\u{028A}"), Some(" How are you?")));
    assert!(g2p.accept(Some(""), Some("are you?")));
    assert!(!g2p.accept(Some("h\u{02CC}a\u{028A}"), Some("  \n")));
    assert_eq!(g2p.finish(), Ok("h\u{0259}l\u{02C8}o\u{028A} h\u{02CC}a\u{028A}".to_string()));
}

#[test]
fn transcript_stops_when_the_engine_returns_nothing() {
    let mut g2p = EspeakG2P::new();
    assert!(g2p.accept(Some("a"), Some("more")));
    assert!(!g2p.accept(None, Some("more")));
    assert_eq!(g2p.finish(), Ok("a".to_string()));
}

#[test]
fn transcript_stops_when_nothing_is_left_of_the_text() {
    let mut g2p = EspeakG2P::new();
    assert!(!g2p.accept(Some("a"), None));
    assert_eq!(g2p.finish(), Ok("a".to_string()));
    let mut g2p = EspeakG2P::new();
    assert!(!g2p.accept(Some("b"), Some("")));
    assert_eq!(g2p.finish(), Ok("b".to_string()));
}

#[test]
fn transcript_without_phonemes_is_a_failure() {
    assert_eq!(EspeakG2P::new().finish(), Err(TokenizeError::NoPhonemes));
    let mut g2p = EspeakG2P::new();
    assert!(!g2p.accept(Some(""), None));
    assert_eq!(g2p.finish(), Err(TokenizeError::NoPhonemes));
    let mut g2p = EspeakG2P::new();
    assert!(!g2p.accept(None, None));
    assert_eq!(g2p.finish(), Err(TokenizeError::NoPhonemes));
}

#[test]
fn blank_strings() {
    assert!(blank(""));
    assert!(blank(" \t\r\n\u{00A0}\u{3000}"));
    assert!(!blank("  x "));
    assert!(!blank("\u{200B}"));
}

#[test]
fn mapper_works_without_a_vocabulary() {
    let mapper = kokoroxide::espeak::ipa_tokenizer::misaki_mapper();
    assert_eq!(mapper.map("h\u{0259}l\u{02C8}o\u{0361}\u{028A}"), "h\u{0259}l\u{02C8}O");
    let extended = kokoroxide::espeak_ipa_tokenizer::misaki_mapper();
    assert_eq!(extended.map("d\u{0292}\u{02C8}\u{028C}mp"), "\u{02A4}\u{02C8}\u{028C}mp");
    assert_eq!(mapper.map("d\u{0292}\u{02C8}\u{028C}mp"), "d\u{0292}\u{02C8}\u{028C}mp");
}
