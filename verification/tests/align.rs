use furigana_fitter::align::fit_furigana_onto_word;
use furigana_fitter::fitting_error::FittingError;
use furigana_fitter::segment::SingleReadingSegment;

fn kana(text: &str) -> SingleReadingSegment {
    SingleReadingSegment::Kana(text.to_owned())
}

fn kanji(kanji: &str, reading: &str) -> SingleReadingSegment {
    SingleReadingSegment::Kanji { kanji: kanji.to_owned(), reading: reading.to_owned() }
}

fn hikkakaru() -> Vec<SingleReadingSegment> {
    vec![kanji("引", "ひ"), kana("っ"), kanji("掛", "か"), kana("かる")]
}

#[test]
fn units_fit_the_word_they_are_written_over() {
    assert_eq!(fit_furigana_onto_word(&hikkakaru(), "引っ掛かる"), Ok(hikkakaru()));
}

#[test]
fn no_units_fit_the_empty_word() {
    assert_eq!(fit_furigana_onto_word(&vec![], ""), Ok(vec![]));
}

#[test]
fn no_units_leave_any_word_too_long() {
    assert_eq!(fit_furigana_onto_word(&vec![], "あ"), Err(FittingError::WordTooLong));
}

#[test]
fn trailing_kana_take_what_is_left_of_the_word() {
    let units = vec![kanji("行", "い"), kana("く")];
    assert_eq!(
        fit_furigana_onto_word(&units, "行った"),
        Ok(vec![kanji("行", "い"), kana("った")])
    );
    assert_eq!(
        fit_furigana_onto_word(&units, "行きませんでした"),
        Ok(vec![kanji("行", "い"), kana("きませんでした")])
    );
}

#[test]
fn kana_before_the_end_must_match() {
    let units = vec![kana("お"), kanji("茶", "ちゃ")];
    assert_eq!(fit_furigana_onto_word(&units, "お茶"), Ok(units.clone()));
    assert_eq!(fit_furigana_onto_word(&units, "ご茶"), Err(FittingError::FuriganaDiffers));
}

#[test]
fn kanji_spelled_out_become_kana() {
    assert_eq!(
        fit_furigana_onto_word(&hikkakaru(), "引っかかる"),
        Ok(vec![kanji("引", "ひ"), kana("っ"), kana("か"), kana("かる")])
    );
    assert_eq!(
        fit_furigana_onto_word(&hikkakaru(), "ひっかかった"),
        Ok(vec![kana("ひ"), kana("っ"), kana("か"), kana("かった")])
    );
}

#[test]
fn kanji_are_tried_before_their_reading() {
    let units = vec![kanji("か", "か"), kana("る")];
    assert_eq!(
        fit_furigana_onto_word(&units, "かる"),
        Ok(vec![kanji("か", "か"), kana("る")])
    );
}

#[test]
fn kanji_that_match_neither_way_differ() {
    assert_eq!(
        fit_furigana_onto_word(&hikkakaru(), "引っひかる"),
        Err(FittingError::FuriganaDiffers)
    );
    assert_eq!(
        fit_furigana_onto_word(&vec![kanji("音", "おん")], "楽"),
        Err(FittingError::FuriganaDiffers)
    );
}

#[test]
fn a_word_that_ends_early_is_too_short() {
    assert_eq!(fit_furigana_onto_word(&hikkakaru(), "引"), Err(FittingError::WordTooShort));
    assert_eq!(fit_furigana_onto_word(&hikkakaru(), "引っ"), Err(FittingError::WordTooShort));
    assert_eq!(fit_furigana_onto_word(&hikkakaru(), "引っ掛"), Err(FittingError::WordTooShort));
    assert_eq!(fit_furigana_onto_word(&hikkakaru(), ""), Err(FittingError::WordTooShort));
    assert_eq!(fit_furigana_onto_word(&vec![kana("あ")], ""), Err(FittingError::WordTooShort));
}

#[test]
fn text_behind_the_last_kanji_is_too_long() {
    let units = vec![kanji("音", "おん"), kanji("楽", "がく")];
    assert_eq!(fit_furigana_onto_word(&units, "音楽"), Ok(units.clone()));
    assert_eq!(fit_furigana_onto_word(&units, "音楽あ"), Err(FittingError::WordTooLong));
    assert_eq!(fit_furigana_onto_word(&units, "音がくあ"), Err(FittingError::WordTooLong));
}

#[test]
fn the_first_failure_is_reported() {
    let units = vec![kanji("引", "ひ"), kana("っ"), kanji("掛", "か"), kanji("留", "と")];
    assert_eq!(fit_furigana_onto_word(&units, "引つ"), Err(FittingError::FuriganaDiffers));
    assert_eq!(fit_furigana_onto_word(&units, "引っ掛"), Err(FittingError::WordTooShort));
    assert_eq!(fit_furigana_onto_word(&units, "引っ掛x"), Err(FittingError::FuriganaDiffers));
}

#[test]
fn a_unit_that_stands_for_nothing_matches_anywhere_but_at_the_end() {
    let units = vec![kanji("", "x"), kana("あ")];
    assert_eq!(fit_furigana_onto_word(&units, "あ"), Ok(vec![kanji("", "x"), kana("あ")]));
    let units = vec![kana("あ"), kanji("", "")];
    assert_eq!(fit_furigana_onto_word(&units, "あ"), Err(FittingError::WordTooShort));
}

#[test]
fn characters_are_counted_not_bytes() {
    let units = vec![kanji("𠮷野", "よしの"), kanji("家", "や")];
    assert_eq!(fit_furigana_onto_word(&units, "𠮷野家"), Ok(units.clone()));
    assert_eq!(
        fit_furigana_onto_word(&units, "よしの家"),
        Ok(vec![kana("よしの"), kanji("家", "や")])
    );
    let units = vec![kana("é"), kana("x")];
    assert_eq!(fit_furigana_onto_word(&units, "éà"), Ok(vec![kana("é"), kana("à")]));
}
