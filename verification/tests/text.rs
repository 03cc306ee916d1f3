use furigana_fitter::text::{chars_of, same_text, skip_chars, starts_with};

#[test]
fn chars_are_scalar_values() {
    assert_eq!(chars_of("来る"), vec!['来', 'る']);
    assert_eq!(chars_of("a𠮷é"), vec!['a', '𠮷', 'é']);
    assert_eq!(chars_of(""), Vec::<char>::new());
}

#[test]
fn a_word_begins_with_its_prefixes_only() {
    let word = chars_of("来ました");
    assert!(starts_with(&word, ""));
    assert!(starts_with(&word, "来"));
    assert!(starts_with(&word, "来ま"));
    assert!(starts_with(&word, "来ました"));
    assert!(!starts_with(&word, "来て"));
    assert!(!starts_with(&word, "ま"));
    assert!(!starts_with(&word, "来ましたよ"));
    assert!(starts_with(&chars_of(""), ""));
    assert!(!starts_with(&chars_of(""), "あ"));
}

#[test]
fn texts_are_the_same_when_their_characters_are() {
    assert!(same_text("来る", "来る"));
    assert!(same_text("", ""));
    assert!(!same_text("来る", "来"));
    assert!(!same_text("来", "来る"));
    assert!(!same_text("来る", "為る"));
    assert!(!same_text("", "る"));
}

#[test]
fn skipping_counts_characters() {
    assert_eq!(skip_chars("来ました", 0), "来ました");
    assert_eq!(skip_chars("来ました", 1), "ました");
    assert_eq!(skip_chars("来ました", 4), "");
    assert_eq!(skip_chars("来ました", 5), "");
    assert_eq!(skip_chars("", 1), "");
    assert_eq!(skip_chars("𠮷野家", 2), "家");
}
