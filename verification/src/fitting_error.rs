//! The ways in which a word can fail to carry the furigana of its
//! dictionary form.

use vstd::prelude::*;
use vstd::string::StringExecFns;

verus! {

/// Why a word could not be fitted.
#[derive(Debug, Clone, Copy, PartialEq, Eq, Structural)]
pub enum FittingError {
    /// A part of the furigana before the trailing kana does not occur at its
    /// place in the word.
    FuriganaDiffers,
    /// The word goes on after every part of the furigana has been matched.
    WordTooLong,
    /// The word ends before every part of the furigana has been matched.
    WordTooShort,
}

impl FittingError {
    /// The sentence that describes the error to a user.
    pub open spec fn message_text(self) -> Seq<char> {
        match self {
            FittingError::FuriganaDiffers => "The furigana differs from the provided word"@,
            FittingError::WordTooLong => "The word is too long to fit the furigana"@,
            FittingError::WordTooShort => "The word is too short to fit the furigana"@,
        }
    }

    /// Returns the sentence that describes the error to a user.
    pub fn message(&self) -> (text: String)
        ensures
            text@ == self.message_text(),
    {
        match self {
            FittingError::FuriganaDiffers => String::from_str(
                "The furigana differs from the provided word",
            ),
            FittingError::WordTooLong => String::from_str(
                "The word is too long to fit the furigana",
            ),
            FittingError::WordTooShort => String::from_str(
                "The word is too short to fit the furigana",
            ),
        }
    }
}

} // verus!
