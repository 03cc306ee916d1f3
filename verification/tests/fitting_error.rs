use furigana_fitter::fitting_error::FittingError;

#[test]
fn each_error_has_its_message() {
    assert_eq!(
        FittingError::FuriganaDiffers.message(),
        "The furigana differs from the provided word"
    );
    assert_eq!(FittingError::WordTooLong.message(), "The word is too long to fit the furigana");
    assert_eq!(FittingError::WordTooShort.message(), "The word is too short to fit the furigana");
}

#[test]
fn errors_are_told_apart() {
    assert_eq!(FittingError::WordTooLong, FittingError::WordTooLong);
    assert_ne!(FittingError::WordTooLong, FittingError::WordTooShort);
    assert_ne!(FittingError::WordTooLong, FittingError::FuriganaDiffers);
    assert_ne!(FittingError::WordTooShort, FittingError::FuriganaDiffers);
}
