//! How a line of text is set within its width, and what a text cannot be
//! built without.

use vstd::prelude::*;
use vstd::string::StringExecFns;
use crate::font::{FontError, FontFault};
use crate::text::chars_of;

verus! {

/// The horizontal alignment of a text within the width of its lines.
#[derive(Debug, Clone, Copy, PartialEq, Eq, Structural)]
pub enum TextAlign {
    /// Flush with the left edge.
    Left,
    /// Centred.
    Center,
    /// Flush with the right edge.
    Right,
}

/// What a text builder finds missing or wrong.
#[derive(Debug, Clone, Copy, PartialEq, Eq, Structural)]
pub enum TextBuilderError {
    /// The text has no content.
    MissingContent,
    /// The text has no font.
    MissingFont,
    /// The text has no width.
    MissingWidth,
    /// The alignment is none of the known ones.
    InvalidAlignment,
}

impl TextBuilderError {
    /// The sentence that reports the error to a person.
    pub open spec fn sentence(self) -> Seq<char> {
        match self {
            TextBuilderError::MissingContent => "the content of the text is not given"@,
            TextBuilderError::MissingFont => "the font of the text is not given"@,
            TextBuilderError::MissingWidth => "the width of the text is not given"@,
            TextBuilderError::InvalidAlignment => "invalid value of align"@,
        }
    }

    /// Returns the sentence that reports the error to a person.
    pub fn describe(&self) -> (s: &'static str)
        ensures
            s@ == self.sentence(),
    {
        match self {
            TextBuilderError::MissingContent => "the content of the text is not given",
            TextBuilderError::MissingFont => "the font of the text is not given",
            TextBuilderError::MissingWidth => "the width of the text is not given",
            TextBuilderError::InvalidAlignment => "invalid value of align",
        }
    }
}

/// The lower-case form of an ASCII letter; any other character unchanged.
pub open spec fn lower(c: char) -> char {
    if 65 <= c as u32 <= 90 {
        ((c as u32 + 32) as u8) as char
    } else {
        c
    }
}

/// Whether `s` is `word`, whatever the case of its letters; `word` is in
/// lower case.
pub open spec fn spells(s: Seq<char>, word: Seq<char>) -> bool {
    s.len() == word.len() && forall|i: int| 0 <= i < s.len() ==> lower(#[trigger] s[i]) == word[i]
}

/// The alignment that a word names: `left`, `center` or `right`, in any
/// case.
pub open spec fn align_of(s: Seq<char>) -> Option<TextAlign> {
    if spells(s, "left"@) {
        Some(TextAlign::Left)
    } else if spells(s, "center"@) {
        Some(TextAlign::Center)
    } else if spells(s, "right"@) {
        Some(TextAlign::Right)
    } else {
        None
    }
}

/// Decides [`spells`].
fn is_word(text: &Vec<char>, word: &str) -> (b: bool)
    ensures
        b == spells(text@, word@),
{
    let letters = chars_of(word);
    if text.len() != letters.len() {
        return false;
    }
    let mut i: usize = 0;
    while i < text.len()
        invariant
            i <= text.len(),
            text.len() == letters.len(),
            letters@ == word@,
            forall|k: int| 0 <= k < i ==> lower(#[trigger] text@[k]) == letters@[k],
        decreases text.len() - i,
    {
        let c = text[i];
        let code: u32 = c as u32;
        let lowered: char = if 65 <= code && code <= 90 {
            ((code + 32) as u8) as char
        } else {
            c
        };
        if lowered != letters[i] {
            return false;
        }
        i += 1;
    }
    true
}

impl TextAlign {
    /// Reads an alignment from its name. A name that is none of `left`,
    /// `center` and `right`, in any case, is an error.
    pub fn from_str(s: &str) -> (r: Result<TextAlign, FontError>)
        ensures
            match align_of(s@) {
                Some(align) => r == Ok::<TextAlign, FontError>(align),
                None => r matches Err(e) && e@ == FontFault::Generic("invalid value of align"@),
            },
    {
        let text = chars_of(s);
        if is_word(&text, "left") {
            Ok(TextAlign::Left)
        } else if is_word(&text, "center") {
            Ok(TextAlign::Center)
        } else if is_word(&text, "right") {
            Ok(TextAlign::Right)
        } else {
            Err(FontError::GenericError(String::from_str("invalid value of align")))
        }
    }
}

} // verus!
