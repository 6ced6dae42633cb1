use notabot::bot::pattern_matching::{default_advanced_patterns, matching_pattern_names, AdvancedPattern};
use notabot::bot::pattern_matching::KeyboardLayout;

#[test]
fn test_fuzzy_matching() {
    let pattern = AdvancedPattern::FuzzyMatch {
        pattern: "badword".to_string(),
        threshold: 800,
    };

    assert!(pattern.matches("badword")); // Exact match
    assert!(pattern.matches("badwrd")); // Missing character
    assert!(pattern.matches("badwore")); // Character substitution
    assert!(!pattern.matches("goodword")); // Too different
}

#[test]
fn fuzzy_matching_reads_leetspeak_words_as_letters() {
    let pattern = AdvancedPattern::FuzzyMatch {
        pattern: "spam".to_string(),
        threshold: 800,
    };

    assert!(pattern.matches("sp4m"));
    assert!(pattern.matches("buy SP4M now"));
    assert!(!pattern.matches("sp4 ham"));
    assert!(!pattern.matches("goodword"));
}

#[test]
fn test_leetspeak_detection() {
    let pattern = AdvancedPattern::Leetspeak("badword".to_string());

    assert!(pattern.matches("b4dw0rd"));
    assert!(pattern.matches("b@dw0rd"));
    assert!(pattern.matches("badword"));
    assert!(!pattern.matches("goodword"));
}

#[test]
fn test_unicode_normalization() {
    let pattern = AdvancedPattern::UnicodeNormalized("cafe".to_string());

    assert!(pattern.matches("caf\u{e9}"));
    assert!(pattern.matches("cafe"));
    assert!(pattern.matches("CAF\u{c9}"));
}

#[test]
fn test_zalgo_detection() {
    let pattern = AdvancedPattern::ZalgoText;

    assert!(pattern.matches("h\u{338}\u{321}\u{32a}\u{32f}\u{368}\u{34a}\u{33d}\u{305}\u{33e}\u{30e}\u{228}\u{32c}\u{329}\u{33e}\u{35b}\u{36a}\u{308}\u{301}\u{300}\u{301}\u{358} \u{336}\u{327}\u{328}\u{331}\u{339}\u{32d}\u{32f}\u{367}\u{33e}\u{36c}C\u{337}\u{319}\u{332}\u{31d}\u{356}\u{36d}\u{30f}\u{365}\u{36e}\u{35f}O\u{36e}\u{34f}\u{32e}\u{32a}\u{31d}\u{34d}M\u{332}\u{316}\u{34a}\u{312}\u{36a}\u{369}\u{36c}\u{31a}\u{31a}\u{35c}\u{206}\u{334}\u{31f}\u{31f}\u{359}\u{31e}\u{369}\u{34c}\u{35d}S\u{328}\u{325}\u{32b}\u{34e}\u{32d}\u{36f}\u{33f}\u{314}\u{300}\u{345}"));
    assert!(!pattern.matches("normal text"));
}

#[test]
fn test_homoglyph_detection() {
    let pattern = AdvancedPattern::Homoglyph("badword".to_string());

    assert!(pattern.matches("b\u{430}dword")); // Cyrillic a
    assert!(pattern.matches("badw\u{3bf}rd")); // Greek omicron
    assert!(pattern.matches("badword"));
}

#[test]
fn test_repeated_char_compression() {
    let pattern = AdvancedPattern::RepeatedCharCompression("hello".to_string());

    assert!(pattern.matches("hellooooo"));
    assert!(pattern.matches("hellllllo"));
    assert!(pattern.matches("hello"));
    assert!(!pattern.matches("goodbye"));
}

#[test]
fn test_phonetic_matching() {
    let pattern = AdvancedPattern::Phonetic("smith".to_string());

    assert!(pattern.matches("smyth"));
    assert!(pattern.matches("smith"));
}

#[test]
fn pattern_names_are_written_as_the_patterns() {
    let mut patterns = default_advanced_patterns();
    patterns.push(AdvancedPattern::KeyboardShift {
        pattern: "spam".to_string(),
        layouts: vec![KeyboardLayout::Qwerty, KeyboardLayout::Azerty],
    });
    patterns.push(AdvancedPattern::EncodedContent("spam".to_string()));
    for p in &patterns {
        assert_eq!(p.id(), format!("{:?}", p));
    }
}

#[test]
fn the_default_patterns_find_leetspeak_spam() {
    let patterns = default_advanced_patterns();
    assert_eq!(patterns.len(), 12);
    let names = matching_pattern_names(&patterns, "sp4m message with l33tsp34k");
    assert!(names.contains(&"Leetspeak(\"spam\")".to_string()));
    assert!(names.contains(&"FuzzyMatch { pattern: \"spam\", threshold: 800 }".to_string()));
    assert!(matching_pattern_names(&patterns, "hello everyone").is_empty());
}
